//! Character-level helpers on strings, each stated over `Seq<char>`.
use vstd::prelude::*;

verus! {

// ---------------------------------------------------------------------------
// Specifications
// ---------------------------------------------------------------------------
/// The views of a sequence of strings.
pub open spec fn views(v: Seq<String>) -> Seq<Seq<char>> {
    v.map_values(|x: String| x@)
}

/// The pieces of `s` between the occurrences of `sep` (`str::split` with a
/// character); there is always at least one piece.
pub open spec fn split(s: Seq<char>, sep: char) -> Seq<Seq<char>>
    decreases s.len(),
{
    if s.len() == 0 {
        seq![Seq::<char>::empty()]
    } else {
        let r = split(s.drop_last(), sep);
        if s.last() == sep {
            r.push(Seq::<char>::empty())
        } else {
            r.update(r.len() - 1, r.last().push(s.last()))
        }
    }
}

/// The parts joined, with `sep` between neighbours (`[T]::join`).
pub open spec fn join(parts: Seq<Seq<char>>, sep: Seq<char>) -> Seq<char>
    decreases parts.len(),
{
    if parts.len() == 0 {
        Seq::<char>::empty()
    } else if parts.len() == 1 {
        parts[0]
    } else {
        join(parts.drop_last(), sep) + sep + parts.last()
    }
}

/// `s` without the leading run of `c` (`str::trim_start_matches` with a character).
pub open spec fn skip_leading(s: Seq<char>, c: char) -> Seq<char>
    decreases s.len(),
{
    if s.len() > 0 && s[0] == c {
        skip_leading(s.drop_first(), c)
    } else {
        s
    }
}

/// The characters with the Unicode `White_Space` property (`char::is_whitespace`).
pub open spec fn is_whitespace(c: char) -> bool {
    ('\t' <= c <= '\r') || c == ' ' || c == '\u{85}' || c == '\u{a0}' || c == '\u{1680}' || (
    '\u{2000}' <= c <= '\u{200a}') || c == '\u{2028}' || c == '\u{2029}' || c == '\u{202f}'
        || c == '\u{205f}' || c == '\u{3000}'
}

/// `s` without leading white space.
pub open spec fn trim_start(s: Seq<char>) -> Seq<char>
    decreases s.len(),
{
    if s.len() > 0 && is_whitespace(s[0]) {
        trim_start(s.drop_first())
    } else {
        s
    }
}

/// `s` without trailing white space.
pub open spec fn trim_end(s: Seq<char>) -> Seq<char>
    decreases s.len(),
{
    if s.len() > 0 && is_whitespace(s.last()) {
        trim_end(s.drop_last())
    } else {
        s
    }
}

/// `s` without leading and trailing white space (`str::trim`).
pub open spec fn trim(s: Seq<char>) -> Seq<char> {
    trim_end(trim_start(s))
}

/// `p` stands in `s` at position `k`.
pub open spec fn occurs_at(s: Seq<char>, p: Seq<char>, k: int) -> bool {
    0 <= k && k + p.len() <= s.len() && s.subrange(k, k + p.len()) == p
}

/// `p` stands somewhere in `s` (`str::contains`).
pub open spec fn contains(s: Seq<char>, p: Seq<char>) -> bool {
    exists|k: int| occurs_at(s, p, k)
}

/// `k` is the first position of `p` in `s`.
pub open spec fn first_at(s: Seq<char>, p: Seq<char>, k: int) -> bool {
    occurs_at(s, p, k) && forall|j: int| 0 <= j < k ==> !occurs_at(s, p, j)
}

/// The first position of `p` in `s`, if any.
pub open spec fn first_occurrence(s: Seq<char>, p: Seq<char>) -> Option<int> {
    if exists|k: int| first_at(s, p, k) {
        Some(choose|k: int| first_at(s, p, k))
    } else {
        None
    }
}

/// What stands before and after the first `p` in `s` (`str::split_once`).
pub open spec fn split_once(s: Seq<char>, p: Seq<char>) -> Option<(Seq<char>, Seq<char>)> {
    match first_occurrence(s, p) {
        Some(k) => Some((s.take(k), s.skip(k + p.len()))),
        None => None,
    }
}

/// The decimal digit `d`.
pub open spec fn digit(d: nat) -> char {
    if d == 0 { '0' }
    else if d == 1 { '1' }
    else if d == 2 { '2' }
    else if d == 3 { '3' }
    else if d == 4 { '4' }
    else if d == 5 { '5' }
    else if d == 6 { '6' }
    else if d == 7 { '7' }
    else if d == 8 { '8' }
    else { '9' }
}

/// `n` written in decimal, as `{}` formats an unsigned integer.
pub open spec fn decimal(n: nat) -> Seq<char>
    decreases n,
{
    if n < 10 {
        seq![digit(n)]
    } else {
        decimal(n / 10).push(digit(n % 10))
    }
}

// ---------------------------------------------------------------------------
// Lemmas
// ---------------------------------------------------------------------------
pub proof fn lemma_split_len(s: Seq<char>, sep: char)
    ensures
        split(s, sep).len() >= 1,
    decreases s.len(),
{
    if s.len() > 0 {
        lemma_split_len(s.drop_last(), sep);
    }
}

/// Splitting text that ends in a run without `sep` extends the last piece.
pub proof fn lemma_split_append_free(a: Seq<char>, b: Seq<char>, sep: char)
    requires
        forall|i: int| 0 <= i < b.len() ==> b[i] != sep,
    ensures
        split(a + b, sep) == split(a, sep).update(
            split(a, sep).len() - 1,
            split(a, sep).last() + b,
        ),
    decreases b.len(),
{
    lemma_split_len(a, sep);
    if b.len() == 0 {
        assert(a + b =~= a);
        assert(split(a, sep).last() + b =~= split(a, sep).last());
        assert(split(a, sep).update(split(a, sep).len() - 1, split(a, sep).last() + b)
            =~= split(a, sep));
    } else {
        lemma_split_append_free(a, b.drop_last(), sep);
        assert((a + b).drop_last() =~= a + b.drop_last());
        assert((a + b).last() == b.last());
        assert(b.last() == b[b.len() - 1]);
        let l = split(a, sep).len() - 1;
        let r = split(a + b.drop_last(), sep);
        assert(r.len() == split(a, sep).len());
        assert(r.last() == r[l]);
        assert(r[l] == split(a, sep).last() + b.drop_last());
        assert(split(a + b, sep) == r.update(l, r.last().push(b.last())));
        assert(r.last().push(b.last()) =~= split(a, sep).last() + b);
        assert(split(a, sep).last() + b.drop_last() + seq![b.last()] =~= split(a, sep).last() + b);
        assert(split(a + b, sep) =~= split(a, sep).update(
            split(a, sep).len() - 1,
            split(a, sep).last() + b,
        ));
    }
}

/// Splitting parts joined by `sep` gives the parts back, where no part holds `sep`.
pub proof fn lemma_split_join(parts: Seq<Seq<char>>, sep: char)
    requires
        parts.len() >= 1,
        forall|j: int, i: int|
            0 <= j < parts.len() && 0 <= i < parts[j].len() ==> #[trigger] parts[j][i] != sep,
    ensures
        split(join(parts, seq![sep]), sep) == parts,
    decreases parts.len(),
{
    let e = Seq::<char>::empty();
    if parts.len() == 1 {
        lemma_split_append_free(e, parts[0], sep);
        assert(e + parts[0] =~= parts[0]);
        assert(split(e, sep).update(0, split(e, sep).last() + parts[0]) =~= parts);
    } else {
        let init = parts.drop_last();
        lemma_split_join(init, sep);
        let j = join(init, seq![sep]);
        let last = parts.last();
        assert(forall|i: int| 0 <= i < last.len() ==> last[i] == parts[parts.len() - 1][i]);
        lemma_split_append_free(j + seq![sep], last, sep);
        assert(join(parts, seq![sep]) =~= (j + seq![sep]) + last);
        assert((j + seq![sep]).drop_last() =~= j);
        lemma_split_len(j, sep);
        assert(split(j + seq![sep], sep) =~= init.push(e));
        assert(e + last =~= last);
        assert(init.push(e).update(init.len() as int, e + last) =~= parts);
    }
}

/// No piece of a split holds the separator.
pub proof fn lemma_split_pieces_free(s: Seq<char>, sep: char)
    ensures
        forall|j: int, i: int|
            0 <= j < split(s, sep).len() && 0 <= i < split(s, sep)[j].len() ==> #[trigger] split(
                s,
                sep,
            )[j][i] != sep,
    decreases s.len(),
{
    lemma_split_len(s, sep);
    if s.len() > 0 {
        lemma_split_pieces_free(s.drop_last(), sep);
        lemma_split_len(s.drop_last(), sep);
        let r = split(s.drop_last(), sep);
        assert forall|j: int, i: int|
            0 <= j < split(s, sep).len() && 0 <= i < split(s, sep)[j].len() implies #[trigger] split(
            s,
            sep,
        )[j][i] != sep by {
            if s.last() != sep && j == r.len() - 1 {
                if i < r.last().len() {
                    assert(split(s, sep)[j][i] == r[j][i]);
                }
            } else if j < r.len() {
                assert(split(s, sep)[j] == r[j]);
            }
        }
    }
}

/// What remains after skipping leading characters is a part of the text.
pub proof fn lemma_skip_leading_suffix(s: Seq<char>, c: char)
    ensures
        skip_leading(s, c).len() <= s.len(),
        forall|i: int|
            0 <= i < skip_leading(s, c).len() ==> #[trigger] skip_leading(s, c)[i] == s[i + s.len()
                - skip_leading(s, c).len()],
    decreases s.len(),
{
    if s.len() > 0 && s[0] == c {
        lemma_skip_leading_suffix(s.drop_first(), c);
    }
}

proof fn lemma_skip_leading(s: Seq<char>, c: char, i: int)
    requires
        0 <= i <= s.len(),
        forall|j: int| 0 <= j < i ==> s[j] == c,
        i == s.len() || s[i] != c,
    ensures
        skip_leading(s, c) == s.skip(i),
    decreases i,
{
    if i > 0 {
        lemma_skip_leading(s.drop_first(), c, i - 1);
        assert(s.drop_first().skip(i - 1) =~= s.skip(i));
    } else {
        assert(s.skip(0) =~= s);
    }
}

proof fn lemma_trim_start(s: Seq<char>, i: int)
    requires
        0 <= i <= s.len(),
        forall|j: int| 0 <= j < i ==> is_whitespace(s[j]),
        i == s.len() || !is_whitespace(s[i]),
    ensures
        trim_start(s) == s.skip(i),
    decreases i,
{
    if i > 0 {
        lemma_trim_start(s.drop_first(), i - 1);
        assert(s.drop_first().skip(i - 1) =~= s.skip(i));
    } else {
        assert(s.skip(0) =~= s);
    }
}

proof fn lemma_trim_end(s: Seq<char>, k: int)
    requires
        0 <= k <= s.len(),
        forall|j: int| k <= j < s.len() ==> is_whitespace(s[j]),
        k == 0 || !is_whitespace(s[k - 1]),
    ensures
        trim_end(s) == s.take(k),
    decreases s.len() - k,
{
    if k < s.len() {
        lemma_trim_end(s.drop_last(), k);
        assert(s.drop_last().take(k) =~= s.take(k));
    } else {
        assert(s.take(k) =~= s);
    }
}

pub proof fn lemma_first_occurrence(s: Seq<char>, p: Seq<char>, k: int)
    requires
        first_at(s, p, k),
    ensures
        first_occurrence(s, p) == Some(k),
{
    let k2 = choose|k: int| first_at(s, p, k);
    assert(first_at(s, p, k2));
    if k2 < k {
        assert(!occurs_at(s, p, k2));
    } else if k < k2 {
        assert(!occurs_at(s, p, k));
    }
}

/// Where `p` stands somewhere in `s`, it has a first position there.
pub proof fn lemma_contains_first(s: Seq<char>, p: Seq<char>, k: int)
    requires
        occurs_at(s, p, k),
    ensures
        exists|j: int| first_at(s, p, j),
    decreases k,
{
    if forall|j: int| 0 <= j < k ==> !occurs_at(s, p, j) {
        assert(first_at(s, p, k));
    } else {
        let j = choose|j: int| 0 <= j < k && occurs_at(s, p, j);
        lemma_contains_first(s, p, j);
    }
}

/// `split_once` finds `p` exactly where `s` holds it.
pub proof fn lemma_split_once_none(s: Seq<char>, p: Seq<char>)
    ensures
        split_once(s, p) is None <==> !contains(s, p),
{
    if contains(s, p) {
        let k = choose|k: int| occurs_at(s, p, k);
        lemma_contains_first(s, p, k);
    } else {
        assert forall|j: int| !first_at(s, p, j) by {
            if first_at(s, p, j) {
                assert(occurs_at(s, p, j));
            }
        }
    }
}

pub proof fn lemma_no_occurrence(s: Seq<char>, p: Seq<char>)
    requires
        forall|j: int| !occurs_at(s, p, j),
    ensures
        first_occurrence(s, p) == None::<int>,
        !contains(s, p),
{
}

// ---------------------------------------------------------------------------
// Executable helpers
// ---------------------------------------------------------------------------
/// Appends one character (`String::push`).
#[verifier::external_body]
pub(crate) fn push_char(s: &mut String, c: char)
    ensures
        final(s)@ == old(s)@.push(c),
{
    s.push(c);
}

/// The characters of `s`, in order.
pub fn chars_of(s: &str) -> (v: Vec<char>)
    ensures
        v@ == s@,
{
    let mut v: Vec<char> = Vec::new();
    for c in it: s.chars()
        invariant
            v@ == it.seq().take(it.index() as int),
            it.seq() == s@,
    {
        v.push(c);
    }
    v
}

/// A string holding the characters `v[from..to]`.
pub fn string_of(v: &Vec<char>, from: usize, to: usize) -> (s: String)
    requires
        from <= to <= v.len(),
    ensures
        s@ == v@.subrange(from as int, to as int),
{
    let mut s = String::new();
    let mut i = from;
    while i < to
        invariant
            from <= i <= to <= v.len(),
            s@ == v@.subrange(from as int, i as int),
        decreases to - i,
    {
        push_char(&mut s, v[i]);
        assert(v@.subrange(from as int, i + 1) == v@.subrange(from as int, i as int).push(
            v@[i as int],
        ));
        i += 1;
    }
    s
}

/// `char::is_whitespace`, written out.
pub fn is_white(c: char) -> (b: bool)
    ensures
        b == is_whitespace(c),
{
    ('\t' <= c && c <= '\r') || c == ' ' || c == '\u{85}' || c == '\u{a0}' || c == '\u{1680}' || (
    '\u{2000}' <= c && c <= '\u{200a}') || c == '\u{2028}' || c == '\u{2029}' || c == '\u{202f}'
        || c == '\u{205f}' || c == '\u{3000}'
}

/// The pieces of `s` between the occurrences of `sep`.
pub fn split_on(s: &str, sep: char) -> (pieces: Vec<String>)
    ensures
        views(pieces@) == split(s@, sep),
{
    let mut pieces: Vec<String> = Vec::new();
    let mut cur = String::new();
    for c in it: s.chars()
        invariant
            it.seq() == s@,
            views(pieces@).push(cur@) == split(s@.take(it.index() as int), sep),
    {
        let ghost i = it.index() as int;
        proof {
            assert(s@.take(i + 1).drop_last() =~= s@.take(i));
            assert(s@.take(i + 1).last() == c);
            lemma_split_len(s@.take(i), sep);
        }
        if c == sep {
            let ghost before = views(pieces@);
            let done = cur;
            pieces.push(done);
            cur = String::new();
            assert(views(pieces@) =~= before.push(done@));
            assert(views(pieces@).push(cur@) =~= split(s@.take(i + 1), sep));
        } else {
            let ghost before = cur@;
            push_char(&mut cur, c);
            assert(views(pieces@).push(cur@) =~= split(s@.take(i + 1), sep));
        }
    }
    assert(s@.take(s@.len() as int) =~= s@);
    let ghost before = views(pieces@);
    pieces.push(cur);
    assert(views(pieces@) =~= before.push(cur@));
    pieces
}

/// `s` without its leading run of `c`.
pub fn skip_leading_char(s: &str, c: char) -> (r: String)
    ensures
        r@ == skip_leading(s@, c),
{
    let v = chars_of(s);
    let mut i: usize = 0;
    while i < v.len() && v[i] == c
        invariant
            i <= v.len(),
            v@ == s@,
            forall|j: int| 0 <= j < i ==> v@[j] == c,
        decreases v.len() - i,
    {
        i += 1;
    }
    proof {
        lemma_skip_leading(s@, c, i as int);
        assert(s@.skip(i as int) =~= s@.subrange(i as int, s@.len() as int));
    }
    string_of(&v, i, v.len())
}

/// `s` without leading and trailing white space.
pub fn trim_str(s: &str) -> (r: String)
    ensures
        r@ == trim(s@),
{
    let v = chars_of(s);
    let mut i: usize = 0;
    while i < v.len() && is_white(v[i])
        invariant
            i <= v.len(),
            v@ == s@,
            forall|j: int| 0 <= j < i ==> is_whitespace(v@[j]),
        decreases v.len() - i,
    {
        i += 1;
    }
    let mut k: usize = v.len();
    while k > i && is_white(v[k - 1])
        invariant
            i <= k <= v.len(),
            v@ == s@,
            forall|j: int| k <= j < v.len() ==> is_whitespace(v@[j]),
        decreases k - i,
    {
        k -= 1;
    }
    proof {
        lemma_trim_start(s@, i as int);
        let t = s@.skip(i as int);
        assert forall|j: int| k - i <= j < t.len() implies is_whitespace(t[j]) by {
            assert(t[j] == v@[j + i]);
        }
        if k > i {
            assert(t[k - i - 1] == v@[k - 1]);
        }
        lemma_trim_end(t, k - i);
        assert(t.take(k - i) =~= s@.subrange(i as int, k as int));
    }
    string_of(&v, i, k)
}

/// The first position of `p` in `s`, if any.
pub fn find(s: &Vec<char>, p: &Vec<char>) -> (r: Option<usize>)
    ensures
        r matches Some(k) ==> first_occurrence(s@, p@) == Some(k as int) && first_at(s@, p@, k as int),
        r is None ==> first_occurrence(s@, p@) == None::<int> && !contains(s@, p@),
{
    if p.len() > s.len() {
        proof {
            lemma_no_occurrence(s@, p@);
        }
        return None;
    }
    let mut k: usize = 0;
    while k <= s.len() - p.len()
        invariant
            p.len() <= s.len(),
            k <= s.len() - p.len() + 1,
            forall|j: int| 0 <= j < k ==> !occurs_at(s@, p@, j),
        decreases s.len() - k,
    {
        let mut m: usize = 0;
        while m < p.len() && s[k + m] == p[m]
            invariant
                k + p.len() <= s.len(),
                m <= p.len(),
                forall|j: int| 0 <= j < m ==> s@[k + j] == p@[j],
            decreases p.len() - m,
        {
            m += 1;
        }
        if m == p.len() {
            assert(s@.subrange(k as int, k + p.len()) =~= p@);
            proof {
                lemma_first_occurrence(s@, p@, k as int);
            }
            return Some(k);
        }
        assert(!occurs_at(s@, p@, k as int)) by {
            if occurs_at(s@, p@, k as int) {
                assert(s@.subrange(k as int, k + p.len())[m as int] == p@[m as int]);
            }
        }
        k += 1;
    }
    proof {
        lemma_no_occurrence(s@, p@);
    }
    None
}

/// The parts of `v` joined with `sep` between neighbours.
pub fn join_with(v: &Vec<String>, sep: &str) -> (r: String)
    ensures
        r@ == join(views(v@), sep@),
{
    let mut r = String::new();
    let mut i: usize = 0;
    while i < v.len()
        invariant
            i <= v.len(),
            r@ == join(views(v@).take(i as int), sep@),
        decreases v.len() - i,
    {
        assert(views(v@).take(i + 1).drop_last() =~= views(v@).take(i as int));
        if i == 0 {
            r.append(v[i].as_str());
        } else {
            r.append(sep);
            r.append(v[i].as_str());
        }
        i += 1;
    }
    assert(views(v@).take(v.len() as int) =~= views(v@));
    r
}

/// The decimal digit `d`.
pub fn digit_char(d: u64) -> (c: char)
    requires
        d < 10,
    ensures
        c == digit(d as nat),
{
    if d == 0 { '0' }
    else if d == 1 { '1' }
    else if d == 2 { '2' }
    else if d == 3 { '3' }
    else if d == 4 { '4' }
    else if d == 5 { '5' }
    else if d == 6 { '6' }
    else if d == 7 { '7' }
    else if d == 8 { '8' }
    else { '9' }
}

/// Appends `n` in decimal.
pub fn push_decimal(s: &mut String, n: u64)
    ensures
        final(s)@ == old(s)@ + decimal(n as nat),
    decreases n,
{
    if n >= 10 {
        push_decimal(s, n / 10);
    }
    push_char(s, digit_char(n % 10));
    assert(final(s)@ =~= old(s)@ + decimal(n as nat));
}

} // verus!
