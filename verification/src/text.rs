use vstd::prelude::*;
use vstd::string::StrSliceExecFns;

verus! {

// ---------------------------------------------------------------------------
// Trusted bridge to std
// ---------------------------------------------------------------------------
/// Relies on String::push: appends exactly the given character.
pub assume_specification[ String::push ](s: &mut String, c: char)
    ensures
        final(s)@ == old(s)@.push(c),
;

// ---------------------------------------------------------------------------
// Conversions between strings and character vectors
// ---------------------------------------------------------------------------
/// Copy the characters of a string slice into a vector.
pub fn to_chars(s: &str) -> (r: Vec<char>)
    ensures
        r@ == s@,
{
    let n = s.unicode_len();
    let mut r: Vec<char> = Vec::new();
    let mut i: usize = 0;
    while i < n
        invariant
            i <= n,
            n == s@.len(),
            r@ == s@.take(i as int),
        decreases n - i,
    {
        r.push(s.get_char(i));
        i = i + 1;
        assert(s@.take(i as int) == s@.take(i as int - 1).push(s@[i as int - 1]));
    }
    assert(s@.take(n as int) == s@);
    r
}

/// Build a string out of a vector of characters.
pub fn string_from_chars(v: &Vec<char>) -> (r: String)
    ensures
        r@ == v@,
{
    let mut r = String::new();
    let mut i: usize = 0;
    while i < v.len()
        invariant
            i <= v@.len(),
            r@ == v@.take(i as int),
        decreases v@.len() - i,
    {
        r.push(v[i]);
        i = i + 1;
        assert(v@.take(i as int) == v@.take(i as int - 1).push(v@[i as int - 1]));
    }
    assert(v@.take(v@.len() as int) == v@);
    r
}

// ---------------------------------------------------------------------------
// Whitespace and trimming
// ---------------------------------------------------------------------------
/// The ASCII whitespace characters this library trims.
pub open spec fn is_space(c: char) -> bool {
    c == ' ' || c == '\t' || c == '\r' || c == '\n'
}

pub open spec fn trim_start_idx(s: Seq<char>, i: int) -> int
    decreases s.len() - i,
{
    if 0 <= i < s.len() && is_space(s[i]) {
        trim_start_idx(s, i + 1)
    } else {
        i
    }
}

pub open spec fn trim_end_idx(s: Seq<char>, j: int) -> int
    decreases j,
{
    if 0 < j <= s.len() && is_space(s[j - 1]) {
        trim_end_idx(s, j - 1)
    } else {
        j
    }
}

/// The string with leading and trailing ASCII whitespace removed.
pub open spec fn spec_trim(s: Seq<char>) -> Seq<char> {
    let a = trim_start_idx(s, 0);
    let b = trim_end_idx(s, s.len() as int);
    if a <= b {
        s.subrange(a, b)
    } else {
        Seq::empty()
    }
}

pub proof fn lemma_trim_start_bounds(s: Seq<char>, i: int)
    requires
        0 <= i <= s.len(),
    ensures
        i <= trim_start_idx(s, i) <= s.len(),
    decreases s.len() - i,
{
    if i < s.len() && is_space(s[i]) {
        lemma_trim_start_bounds(s, i + 1);
    }
}

pub proof fn lemma_trim_end_bounds(s: Seq<char>, j: int)
    requires
        0 <= j <= s.len(),
    ensures
        0 <= trim_end_idx(s, j) <= j,
    decreases j,
{
    if 0 < j && is_space(s[j - 1]) {
        lemma_trim_end_bounds(s, j - 1);
    }
}

/// Remove leading and trailing ASCII whitespace.
pub fn trim(v: &Vec<char>) -> (r: Vec<char>)
    ensures
        r@ == spec_trim(v@),
{
    let ghost s = v@;
    let mut a: usize = 0;
    while a < v.len() && (v[a] == ' ' || v[a] == '\t' || v[a] == '\r' || v[a] == '\n')
        invariant
            0 <= a <= s.len(),
            s == v@,
            trim_start_idx(s, 0) == trim_start_idx(s, a as int),
        decreases s.len() - a,
    {
        a = a + 1;
    }
    assert(trim_start_idx(s, a as int) == a);
    let mut b: usize = v.len();
    while b > a && (v[b - 1] == ' ' || v[b - 1] == '\t' || v[b - 1] == '\r' || v[b - 1] == '\n')
        invariant
            a <= b <= s.len(),
            s == v@,
            trim_start_idx(s, 0) == a,
            trim_end_idx(s, s.len() as int) == trim_end_idx(s, b as int),
        decreases b,
    {
        b = b - 1;
    }
    proof {
        if b > a {
            assert(trim_end_idx(s, b as int) == b);
        } else {
            assert(b == a);
            if 0 < b <= s.len() && is_space(s[b - 1]) {
                assert(trim_start_idx(s, 0) == a);
                lemma_trim_end_bounds(s, b as int);
                assert(trim_end_idx(s, b as int) <= b);
            } else {
                assert(trim_end_idx(s, b as int) == b);
            }
        }
    }
    let mut r: Vec<char> = Vec::new();
    let mut i: usize = a;
    while i < b
        invariant
            a <= i <= b <= s.len(),
            s == v@,
            r@ == s.subrange(a as int, i as int),
        decreases b - i,
    {
        r.push(v[i]);
        i = i + 1;
        assert(s.subrange(a as int, i as int) == s.subrange(a as int, i as int - 1).push(
            s[i as int - 1],
        ));
    }
    proof {
        let sa = trim_start_idx(s, 0);
        let sb = trim_end_idx(s, s.len() as int);
        lemma_trim_end_bounds(s, s.len() as int);
        if sa <= sb {
            assert(r@ == s.subrange(sa, sb));
        } else {
            assert(r@ == Seq::<char>::empty());
        }
    }
    r
}

// ---------------------------------------------------------------------------
// Trimming quote characters
// ---------------------------------------------------------------------------
/// The quote characters a Gemfile wraps names and versions in.
pub open spec fn is_quote(c: char) -> bool {
    c == '"' || c == '\''
}

pub open spec fn quote_start_idx(s: Seq<char>, i: int) -> int
    decreases s.len() - i,
{
    if 0 <= i < s.len() && is_quote(s[i]) {
        quote_start_idx(s, i + 1)
    } else {
        i
    }
}

pub open spec fn quote_end_idx(s: Seq<char>, j: int) -> int
    decreases j,
{
    if 0 < j <= s.len() && is_quote(s[j - 1]) {
        quote_end_idx(s, j - 1)
    } else {
        j
    }
}

/// The string with leading and trailing quote characters removed.
pub open spec fn spec_trim_quotes(s: Seq<char>) -> Seq<char> {
    let a = quote_start_idx(s, 0);
    let b = quote_end_idx(s, s.len() as int);
    if a <= b {
        s.subrange(a, b)
    } else {
        Seq::empty()
    }
}

proof fn lemma_quote_end_bounds(s: Seq<char>, j: int)
    requires
        0 <= j <= s.len(),
    ensures
        0 <= quote_end_idx(s, j) <= j,
    decreases j,
{
    if 0 < j && is_quote(s[j - 1]) {
        lemma_quote_end_bounds(s, j - 1);
    }
}

/// Remove leading and trailing quote characters.
pub fn trim_quotes(v: &Vec<char>) -> (r: Vec<char>)
    ensures
        r@ == spec_trim_quotes(v@),
{
    let ghost s = v@;
    let mut a: usize = 0;
    while a < v.len() && (v[a] == '"' || v[a] == '\'')
        invariant
            0 <= a <= s.len(),
            s == v@,
            quote_start_idx(s, 0) == quote_start_idx(s, a as int),
        decreases s.len() - a,
    {
        a = a + 1;
    }
    assert(quote_start_idx(s, a as int) == a);
    let mut b: usize = v.len();
    while b > a && (v[b - 1] == '"' || v[b - 1] == '\'')
        invariant
            a <= b <= s.len(),
            s == v@,
            quote_start_idx(s, 0) == a,
            quote_end_idx(s, s.len() as int) == quote_end_idx(s, b as int),
        decreases b,
    {
        b = b - 1;
    }
    proof {
        if b > a {
            assert(quote_end_idx(s, b as int) == b);
        } else {
            if 0 < b <= s.len() && is_quote(s[b - 1]) {
                lemma_quote_end_bounds(s, b as int);
            } else {
                assert(quote_end_idx(s, b as int) == b);
            }
        }
    }
    let r = subrange_chars_clamped(v, a, b);
    proof {
        let sa = quote_start_idx(s, 0);
        let sb = quote_end_idx(s, s.len() as int);
        lemma_quote_end_bounds(s, s.len() as int);
        if sa <= sb {
            assert(r@ == s.subrange(sa, sb));
        } else {
            assert(r@ == Seq::<char>::empty());
        }
    }
    r
}

/// Copy `v[a..b]`, yielding the empty vector when the range is inverted.
fn subrange_chars_clamped(v: &Vec<char>, a: usize, b: usize) -> (r: Vec<char>)
    requires
        b <= v@.len(),
    ensures
        a <= b ==> r@ == v@.subrange(a as int, b as int),
        a > b ==> r@ == Seq::<char>::empty(),
{
    let mut r: Vec<char> = Vec::new();
    if a >= b {
        if a == b {
            assert(v@.subrange(a as int, b as int) =~= Seq::<char>::empty());
        }
        return r;
    }
    let mut i: usize = a;
    while i < b
        invariant
            a <= i <= b <= v@.len(),
            r@ == v@.subrange(a as int, i as int),
        decreases b - i,
    {
        r.push(v[i]);
        i = i + 1;
        assert(v@.subrange(a as int, i as int) == v@.subrange(a as int, i as int - 1).push(
            v@[i as int - 1],
        ));
    }
    r
}

// ---------------------------------------------------------------------------
// Splitting on a separator character
// ---------------------------------------------------------------------------
/// Index of the first occurrence of `c` in `s`, or `s.len()` if absent.
pub open spec fn first_idx(s: Seq<char>, c: char) -> int
    decreases s.len(),
{
    if s.len() == 0 {
        0
    } else if s[0] == c {
        0
    } else {
        1 + first_idx(s.drop_first(), c)
    }
}

pub proof fn lemma_first_idx_bounds(s: Seq<char>, c: char)
    ensures
        0 <= first_idx(s, c) <= s.len(),
        first_idx(s, c) < s.len() ==> s[first_idx(s, c)] == c,
        forall|k: int| 0 <= k < first_idx(s, c) ==> s[k] != c,
    decreases s.len(),
{
    if s.len() > 0 && s[0] != c {
        lemma_first_idx_bounds(s.drop_first(), c);
        assert forall|k: int| 0 <= k < first_idx(s, c) implies s[k] != c by {
            if k > 0 {
                assert(s.drop_first()[k - 1] != c);
            }
        }
    }
}

/// The pieces of `s` between occurrences of `sep`; always at least one piece.
pub open spec fn spec_split_char(s: Seq<char>, sep: char) -> Seq<Seq<char>>
    decreases s.len(),
{
    let i = first_idx(s, sep);
    if i == s.len() {
        seq![s]
    } else if 0 <= i < s.len() {
        seq![s.take(i)] + spec_split_char(s.subrange(i + 1, s.len() as int), sep)
    } else {
        seq![s]
    }
}

/// The first position at or after `from` holding `c`, or the end.
pub fn scan_char(v: &Vec<char>, from: usize, c: char) -> (r: usize)
    requires
        from <= v@.len(),
    ensures
        from <= r <= v@.len(),
        r - from == first_idx(v@.subrange(from as int, v@.len() as int), c),
    decreases v@.len() - from,
{
    let ghost tail = v@.subrange(from as int, v@.len() as int);
    if from == v.len() {
        return from;
    }
    if v[from] == c {
        return from;
    }
    let r = scan_char(v, from + 1, c);
    proof {
        assert(tail.drop_first() =~= v@.subrange(from as int + 1, v@.len() as int));
    }
    r
}

/// `s` ends with `pat`.
pub open spec fn spec_ends_with(s: Seq<char>, pat: Seq<char>) -> bool {
    matches_at(s, s.len() - pat.len(), pat)
}

/// Does `v` end with `pat`?
pub fn ends_with(v: &Vec<char>, pat: &Vec<char>) -> (r: bool)
    ensures
        r == spec_ends_with(v@, pat@),
{
    if pat.len() > v.len() {
        assert(!matches_at(v@, v@.len() - pat@.len(), pat@));
        return false;
    }
    check_match(v, v.len() - pat.len(), pat)
}

/// What str::to_lowercase returns; the result depends on the characters
/// alone, so the keyword scans can speak of it.
pub uninterp spec fn lower_of(s: Seq<char>) -> Seq<char>;

/// Relies on str::to_lowercase: the Unicode lowercase mapping of the text.
#[verifier::external_body]
pub fn lowercase(s: &str) -> (r: String)
    ensures
        r@ == lower_of(s@),
{
    s.to_lowercase()
}

/// Copy the characters of `v` from `a` (inclusive) to `b` (exclusive).
pub fn subrange_chars(v: &Vec<char>, a: usize, b: usize) -> (r: Vec<char>)
    requires
        a <= b <= v@.len(),
    ensures
        r@ == v@.subrange(a as int, b as int),
{
    let mut r: Vec<char> = Vec::new();
    let mut i: usize = a;
    while i < b
        invariant
            a <= i <= b <= v@.len(),
            r@ == v@.subrange(a as int, i as int),
        decreases b - i,
    {
        r.push(v[i]);
        i = i + 1;
        assert(v@.subrange(a as int, i as int) == v@.subrange(a as int, i as int - 1).push(
            v@[i as int - 1],
        ));
    }
    r
}

/// Split into the pieces between occurrences of `sep`.
pub fn split_char(v: &Vec<char>, sep: char) -> (r: Vec<Vec<char>>)
    ensures
        r.deep_view() == spec_split_char(v@, sep),
        r@.len() >= 1,
{
    let mut out: Vec<Vec<char>> = Vec::new();
    let mut start: usize = 0;
    proof {
        assert(v@.subrange(0, v@.len() as int) =~= v@);
        assert(out.deep_view() =~~= Seq::<Seq<char>>::empty());
    }
    loop
        invariant
            start <= v@.len(),
            spec_split_char(v@, sep) == out.deep_view() + spec_split_char(
                v@.subrange(start as int, v@.len() as int),
                sep,
            ),
        decreases v@.len() - start,
    {
        let ghost rest = v@.subrange(start as int, v@.len() as int);
        let j = scan_char(v, start, sep);
        proof {
            lemma_first_idx_bounds(rest, sep);
        }
        let piece = subrange_chars(v, start, j);
        let ghost old_out = out.deep_view();
        out.push(piece);
        proof {
            assert(out.deep_view() =~~= old_out + seq![piece@]);
            assert(piece@ =~= rest.take(j - start));
        }
        if j == v.len() {
            proof {
                assert(first_idx(rest, sep) == rest.len());
                assert(spec_split_char(rest, sep) == seq![rest]);
                assert(piece@ =~= rest);
                assert(out.deep_view() =~~= old_out + seq![rest]);
            }
            return out;
        }
        proof {
            assert(first_idx(rest, sep) == j - start);
            assert(spec_split_char(rest, sep) == seq![rest.take(j - start)] + spec_split_char(
                rest.subrange(j - start + 1, rest.len() as int),
                sep,
            ));
            assert(rest.subrange(j - start + 1, rest.len() as int) =~= v@.subrange(
                j as int + 1,
                v@.len() as int,
            ));
            assert(out.deep_view() + spec_split_char(
                v@.subrange(j as int + 1, v@.len() as int),
                sep,
            ) =~~= old_out + spec_split_char(rest, sep));
        }
        start = j + 1;
    }
}

/// The first occurrence is exactly where the character stands with none
/// before it.
pub proof fn lemma_first_idx_exact(s: Seq<char>, j: int, c: char)
    requires
        0 <= j < s.len(),
        s[j] == c,
        forall|k: int| 0 <= k < j ==> s[k] != c,
    ensures
        first_idx(s, c) == j,
    decreases j,
{
    if j > 0 {
        assert(s[0] != c);
        assert forall|k: int| 0 <= k < j - 1 implies s.drop_first()[k] != c by {
            assert(s.drop_first()[k] == s[k + 1]);
        }
        assert(s.drop_first()[j - 1] == s[j]);
        lemma_first_idx_exact(s.drop_first(), j - 1, c);
    }
}

/// Concatenation does not move an occurrence inside the left part.
pub proof fn lemma_first_idx_concat(x: Seq<char>, y: Seq<char>, c: char)
    requires
        first_idx(x, c) < x.len(),
    ensures
        first_idx(x + y, c) == first_idx(x, c),
    decreases x.len(),
{
    lemma_first_idx_bounds(x, c);
    if x.len() > 0 {
        if x[0] == c {
            assert((x + y)[0] == x[0]);
        } else {
            assert((x + y)[0] == x[0]);
            lemma_first_idx_concat(x.drop_first(), y, c);
            assert((x + y).drop_first() =~= x.drop_first() + y);
        }
    }
}

/// A text ending in the separator splits with an empty final piece.
pub proof fn lemma_split_ends_sep(x: Seq<char>, sep: char)
    requires
        x.len() > 0,
        x.last() == sep,
    ensures
        spec_split_char(x, sep).last().len() == 0,
        spec_split_char(x, sep).len() >= 2,
    decreases x.len(),
{
    lemma_first_idx_bounds(x, sep);
    let i = first_idx(x, sep);
    assert(i < x.len());
    let x2 = x.subrange(i + 1, x.len() as int);
    if x2.len() == 0 {
        assert(first_idx(x2, sep) == 0);
        assert(spec_split_char(x2, sep) == seq![x2]);
        assert(spec_split_char(x, sep) == seq![x.take(i)] + seq![x2]);
    } else {
        assert(x2.last() == x.last());
        lemma_split_ends_sep(x2, sep);
        assert(spec_split_char(x, sep) == seq![x.take(i)] + spec_split_char(x2, sep));
        assert(spec_split_char(x, sep).last() == spec_split_char(x2, sep).last());
    }
}

/// Splitting a concatenation whose left part ends in the separator: the
/// left part's pieces, minus its empty tail, then the right part's.
pub proof fn lemma_split_concat(x: Seq<char>, y: Seq<char>, sep: char)
    requires
        x.len() > 0,
        x.last() == sep,
    ensures
        spec_split_char(x + y, sep) == spec_split_char(x, sep).drop_last() + spec_split_char(
            y,
            sep,
        ),
    decreases x.len(),
{
    lemma_first_idx_bounds(x, sep);
    let i = first_idx(x, sep);
    assert(i < x.len());
    lemma_first_idx_concat(x, y, sep);
    let t = x + y;
    assert(t.take(i) =~= x.take(i));
    let x2 = x.subrange(i + 1, x.len() as int);
    assert(t.subrange(i + 1, t.len() as int) =~= x2 + y);
    if x2.len() == 0 {
        assert(x2 + y =~= y);
        assert(first_idx(x2, sep) == 0);
        assert(spec_split_char(x2, sep) == seq![x2]);
        assert(spec_split_char(x, sep) == seq![x.take(i)] + seq![x2]);
        assert(spec_split_char(x, sep).drop_last() =~= seq![x.take(i)]);
        assert(spec_split_char(t, sep) == seq![x.take(i)] + spec_split_char(y, sep));
    } else {
        assert(x2.last() == x.last());
        lemma_split_concat(x2, y, sep);
        lemma_split_ends_sep(x2, sep);
        assert(spec_split_char(t, sep) == seq![x.take(i)] + spec_split_char(x2 + y, sep));
        assert(spec_split_char(x, sep) == seq![x.take(i)] + spec_split_char(x2, sep));
        assert(spec_split_char(x, sep).drop_last() =~= seq![x.take(i)] + spec_split_char(
            x2,
            sep,
        ).drop_last());
        assert(seq![x.take(i)] + (spec_split_char(x2, sep).drop_last() + spec_split_char(y, sep))
            =~= (seq![x.take(i)] + spec_split_char(x2, sep).drop_last()) + spec_split_char(
            y,
            sep,
        ));
    }
}

/// Appending one newline-free line, newline-terminated, to a text that is
/// empty or newline-terminated extends its line list by exactly that line.
pub proof fn lemma_lines_snoc(a: Seq<char>, b: Seq<char>)
    requires
        a.len() == 0 || a.last() == '\n',
        first_idx(b, '\n') == b.len(),
    ensures
        spec_lines(a + b + seq!['\n']) == spec_lines(a).push(b),
{
    let nl = seq!['\n'];
    let t = a + b + nl;
    lemma_first_idx_bounds(b, '\n');
    let bn = b + nl;
    assert(bn[b.len() as int] == '\n');
    assert forall|k: int| 0 <= k < b.len() implies bn[k] != '\n' by {
        assert(bn[k] == b[k]);
    }
    lemma_first_idx_exact(bn, b.len() as int, '\n');
    assert(bn.take(b.len() as int) =~= b);
    assert(bn.subrange(b.len() as int + 1, bn.len() as int) =~= Seq::<char>::empty());
    assert(first_idx(Seq::<char>::empty(), '\n') == 0);
    assert(spec_split_char(Seq::<char>::empty(), '\n') == seq![Seq::<char>::empty()]);
    assert(spec_split_char(bn, '\n') == seq![b] + seq![Seq::<char>::empty()]);
    if a.len() == 0 {
        assert(t =~= bn);
        let p = spec_split_char(t, '\n');
        assert(p =~= seq![b, Seq::<char>::empty()]);
        assert(p.last().len() == 0);
        assert(spec_lines(t) =~= seq![b]);
        assert(spec_lines(a).push(b) =~= seq![b]);
    } else {
        assert(t =~= a + bn);
        lemma_split_concat(a, bn, '\n');
        lemma_split_ends_sep(a, '\n');
        let p = spec_split_char(t, '\n');
        assert(p == spec_split_char(a, '\n').drop_last() + spec_split_char(bn, '\n'));
        assert(p.len() >= 2);
        assert(p.last().len() == 0);
        assert(t.len() > 0);
        assert(spec_lines(t) == p.drop_last());
        assert(spec_lines(a) == spec_split_char(a, '\n').drop_last());
        assert(p.drop_last() =~= spec_lines(a).push(b));
    }
}

/// The lines of a text, as `str::lines` yields them except that only the
/// final `'\n'` is treated specially (each line is trimmed by callers,
/// which also removes a trailing `'\r'`).
pub open spec fn spec_lines(s: Seq<char>) -> Seq<Seq<char>> {
    if s.len() == 0 {
        Seq::empty()
    } else {
        let p = spec_split_char(s, '\n');
        if p.last().len() == 0 {
            p.drop_last()
        } else {
            p
        }
    }
}

/// Split a text into lines.
pub fn split_lines(v: &Vec<char>) -> (r: Vec<Vec<char>>)
    ensures
        r.deep_view() == spec_lines(v@),
{
    if v.len() == 0 {
        let r: Vec<Vec<char>> = Vec::new();
        assert(r.deep_view() =~= spec_lines(v@));
        return r;
    }
    let mut r = split_char(v, '\n');
    let last_empty = r[r.len() - 1].len() == 0;
    proof {
        assert(r.deep_view().last() == r@[r@.len() - 1]@);
    }
    if last_empty {
        let ghost before = r.deep_view();
        r.pop();
        proof {
            assert(r.deep_view() =~~= before.drop_last());
        }
    }
    r
}

// ---------------------------------------------------------------------------
// Splitting on whitespace runs
// ---------------------------------------------------------------------------
/// Index of the first ASCII whitespace character, or `s.len()` if none.
pub open spec fn first_ws(s: Seq<char>) -> int
    decreases s.len(),
{
    if s.len() == 0 {
        0
    } else if is_space(s[0]) {
        0
    } else {
        1 + first_ws(s.drop_first())
    }
}

pub proof fn lemma_first_ws_bounds(s: Seq<char>)
    ensures
        0 <= first_ws(s) <= s.len(),
        first_ws(s) < s.len() ==> is_space(s[first_ws(s)]),
        forall|k: int| 0 <= k < first_ws(s) ==> !is_space(s[k]),
    decreases s.len(),
{
    if s.len() > 0 && !is_space(s[0]) {
        lemma_first_ws_bounds(s.drop_first());
        assert forall|k: int| 0 <= k < first_ws(s) implies !is_space(s[k]) by {
            if k > 0 {
                assert(!is_space(s.drop_first()[k - 1]));
            }
        }
    }
}

/// The maximal whitespace-free pieces of `s`, in order.
pub open spec fn spec_split_ws(s: Seq<char>) -> Seq<Seq<char>>
    decreases s.len(),
{
    if s.len() == 0 {
        Seq::empty()
    } else if is_space(s[0]) {
        spec_split_ws(s.drop_first())
    } else {
        let i = first_ws(s);
        if 1 <= i <= s.len() {
            seq![s.take(i)] + spec_split_ws(s.subrange(i, s.len() as int))
        } else {
            Seq::empty()
        }
    }
}

/// Split into the whitespace-separated words.
pub fn split_ws(v: &Vec<char>) -> (r: Vec<Vec<char>>)
    ensures
        r.deep_view() == spec_split_ws(v@),
{
    let mut out: Vec<Vec<char>> = Vec::new();
    let mut pos: usize = 0;
    proof {
        assert(v@.skip(0) =~= v@);
        assert(out.deep_view() =~~= Seq::<Seq<char>>::empty());
    }
    loop
        invariant
            pos <= v@.len(),
            spec_split_ws(v@) == out.deep_view() + spec_split_ws(
                v@.subrange(pos as int, v@.len() as int),
            ),
        decreases v@.len() - pos,
    {
        let ghost rest = v@.subrange(pos as int, v@.len() as int);
        if pos == v.len() {
            proof {
                assert(out.deep_view() + spec_split_ws(rest) =~~= out.deep_view());
            }
            return out;
        }
        let c = v[pos];
        assert(rest[0] == v@[pos as int]);
        if c == ' ' || c == '\t' || c == '\r' || c == '\n' {
            proof {
                assert(rest.drop_first() =~= v@.subrange(pos + 1, v@.len() as int));
            }
            pos = pos + 1;
        } else {
            // scan to the next whitespace
            let mut j: usize = pos;
            proof {
                lemma_first_ws_bounds(rest);
            }
            while j < v.len() && !(v[j] == ' ' || v[j] == '\t' || v[j] == '\r' || v[j] == '\n')
                invariant
                    pos <= j <= v@.len(),
                    rest == v@.subrange(pos as int, v@.len() as int),
                    forall|k: int| 0 <= k < j - pos ==> !is_space(rest[k]),
                decreases v@.len() - j,
            {
                j = j + 1;
            }
            proof {
                lemma_first_ws_bounds(rest);
                if j < v.len() {
                    assert(is_space(rest[j - pos]));
                }
                assert(first_ws(rest) == j - pos);
            }
            let piece = subrange_chars(v, pos, j);
            let ghost old_out = out.deep_view();
            out.push(piece);
            proof {
                assert(out.deep_view() =~~= old_out + seq![piece@]);
                assert(piece@ =~= rest.take(j - pos));
                assert(spec_split_ws(rest) == seq![rest.take(j - pos)] + spec_split_ws(
                    rest.subrange(j - pos, rest.len() as int),
                ));
                assert(rest.subrange(j - pos, rest.len() as int) =~= v@.subrange(
                    j as int,
                    v@.len() as int,
                ));
                assert(out.deep_view() + spec_split_ws(v@.subrange(j as int, v@.len() as int))
                    =~~= old_out + spec_split_ws(rest));
            }
            pos = j;
        }
    }
}

// ---------------------------------------------------------------------------
// Substring matching
// ---------------------------------------------------------------------------
/// `pat` occurs in `s` starting at position `i`.
pub open spec fn matches_at(s: Seq<char>, i: int, pat: Seq<char>) -> bool {
    0 <= i && i + pat.len() <= s.len() && s.subrange(i, i + pat.len() as int) == pat
}

/// `s` begins with `pat`.
pub open spec fn spec_starts_with(s: Seq<char>, pat: Seq<char>) -> bool {
    matches_at(s, 0, pat)
}

/// `pat` occurs somewhere in `s`.
pub open spec fn spec_contains(s: Seq<char>, pat: Seq<char>) -> bool {
    exists|i: int| matches_at(s, i, pat)
}

/// Index of the first occurrence of `pat` at or after `i`, or `None`.
pub open spec fn spec_find(s: Seq<char>, i: int, pat: Seq<char>) -> Option<int>
    decreases s.len() - i,
{
    if i + pat.len() > s.len() {
        None
    } else if matches_at(s, i, pat) {
        Some(i)
    } else if i >= s.len() {
        None
    } else {
        spec_find(s, i + 1, pat)
    }
}

pub proof fn lemma_spec_find(s: Seq<char>, i: int, pat: Seq<char>)
    requires
        0 <= i,
    ensures
        match spec_find(s, i, pat) {
            Some(j) => i <= j && matches_at(s, j, pat) && forall|k: int|
                i <= k < j ==> !matches_at(s, k, pat),
            None => forall|k: int| i <= k ==> !matches_at(s, k, pat),
        },
    decreases s.len() - i,
{
    if i + pat.len() > s.len() {
    } else if matches_at(s, i, pat) {
    } else if i >= s.len() {
    } else {
        lemma_spec_find(s, i + 1, pat);
    }
}

/// The first occurrence is exactly where a match stands with none before it.
pub proof fn lemma_spec_find_exact(s: Seq<char>, i: int, j: int, pat: Seq<char>)
    requires
        0 <= i <= j,
        matches_at(s, j, pat),
        forall|k: int| i <= k < j ==> !matches_at(s, k, pat),
    ensures
        spec_find(s, i, pat) == Some(j),
    decreases j - i,
{
    if i < j {
        lemma_spec_find_exact(s, i + 1, j, pat);
    }
}

/// Does `pat` occur in `v` starting exactly at `i`?
pub fn check_match(v: &Vec<char>, i: usize, pat: &Vec<char>) -> (r: bool)
    requires
        i <= v@.len(),
    ensures
        r == matches_at(v@, i as int, pat@),
{
    if pat.len() > v.len() - i {
        assert(!matches_at(v@, i as int, pat@));
        return false;
    }
    let mut k: usize = 0;
    while k < pat.len()
        invariant
            0 <= k <= pat@.len(),
            i + pat@.len() <= v.len(),
            forall|m: int| 0 <= m < k ==> v@[i + m] == pat@[m],
        decreases pat@.len() - k,
    {
        assert(i + k < v@.len());
        if v[i + k] != pat[k] {
            assert(v@.subrange(i as int, i + pat@.len() as int)[k as int] != pat@[k as int]);
            return false;
        }
        k = k + 1;
    }
    assert(v@.subrange(i as int, i + pat@.len() as int) =~= pat@);
    true
}

/// Find the first occurrence of `pat` at or after `from`.
pub fn find_sub(v: &Vec<char>, from: usize, pat: &Vec<char>) -> (r: Option<usize>)
    requires
        from <= v@.len(),
    ensures
        match r {
            Some(j) => from <= j && j + pat@.len() <= v@.len() && Some(j as int) == spec_find(
                v@,
                from as int,
                pat@,
            ),
            None => spec_find(v@, from as int, pat@) is None,
        },
{
    if pat.len() == 0 {
        assert(v@.subrange(from as int, from as int) =~= pat@);
        assert(matches_at(v@, from as int, pat@));
        return Some(from);
    }
    assert(v.len() == v@.len());
    let mut i: usize = from;
    loop
        invariant
            from <= i,
            i <= v@.len() + 1,
            pat@.len() >= 1,
            v@.len() <= usize::MAX,
            spec_find(v@, from as int, pat@) == spec_find(v@, i as int, pat@),
        decreases v@.len() + 1 - i,
    {
        if pat.len() > v.len() || i > v.len() - pat.len() {
            assert(spec_find(v@, i as int, pat@) is None);
            return None;
        }
        if check_match(v, i, pat) {
            return Some(i);
        }
        i = i + 1;
    }
}

/// Does `pat` occur anywhere in `v`?
pub fn contains_sub(v: &Vec<char>, pat: &Vec<char>) -> (r: bool)
    ensures
        r == spec_contains(v@, pat@),
{
    let r = find_sub(v, 0, pat);
    proof {
        lemma_spec_find(v@, 0, pat@);
        match spec_find(v@, 0, pat@) {
            Some(j) => {
                assert(matches_at(v@, j, pat@));
            },
            None => {
                assert(forall|k: int| !matches_at(v@, k, pat@)) by {
                    assert(forall|k: int| k < 0 ==> !matches_at(v@, k, pat@));
                    assert(forall|k: int| 0 <= k ==> !matches_at(v@, k, pat@));
                }
            },
        }
    }
    r.is_some()
}

/// Are two character vectors equal?
pub fn chars_eq(a: &Vec<char>, b: &Vec<char>) -> (r: bool)
    ensures
        r == (a@ == b@),
{
    if a.len() != b.len() {
        return false;
    }
    let mut i: usize = 0;
    while i < a.len()
        invariant
            i <= a@.len(),
            a@.len() == b@.len(),
            forall|m: int| 0 <= m < i ==> a@[m] == b@[m],
        decreases a@.len() - i,
    {
        if a[i] != b[i] {
            return false;
        }
        i = i + 1;
    }
    proof {
        assert(a@ =~= b@);
    }
    true
}

/// Does `v` begin with `pat`?
pub fn starts_with(v: &Vec<char>, pat: &Vec<char>) -> (r: bool)
    ensures
        r == spec_starts_with(v@, pat@),
{
    check_match(v, 0, pat)
}

} // verus!
