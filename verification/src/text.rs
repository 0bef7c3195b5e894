//! Character-level text utilities shared by the other modules.

use vstd::prelude::*;

verus! {

/// Unicode `White_Space`: the characters that `char::is_whitespace` accepts
/// and that `\s` matches in a Unicode regular expression.
pub open spec fn is_ws(c: char) -> bool {
    let n = c as u32;
    ||| 0x09 <= n <= 0x0d
    ||| n == 0x20
    ||| n == 0x85
    ||| n == 0xa0
    ||| n == 0x1680
    ||| 0x2000 <= n <= 0x200a
    ||| n == 0x2028
    ||| n == 0x2029
    ||| n == 0x202f
    ||| n == 0x205f
    ||| n == 0x3000
}

/// Decides `is_ws`.
pub fn is_whitespace(c: char) -> (r: bool)
    ensures
        r == is_ws(c),
{
    let n = c as u32;
    (0x09 <= n && n <= 0x0d) || n == 0x20 || n == 0x85 || n == 0xa0 || n == 0x1680 || (0x2000
        <= n && n <= 0x200a) || n == 0x2028 || n == 0x2029 || n == 0x202f || n == 0x205f || n
        == 0x3000
}

/// The characters of a string slice, in order.
pub fn chars_of(s: &str) -> (r: Vec<char>)
    ensures
        r@ == s@,
{
    let mut r: Vec<char> = Vec::new();
    for c in it: s.chars()
        invariant
            it.seq() == s@,
            r@ == it.seq().take(it.index() as int),
    {
        r.push(c);
    }
    r
}


/// Appends one character to a `String`.
/// Trusted: `String::push`, documented to append the given char to the end.
#[verifier::external_body]
pub fn push_char(s: &mut String, c: char)
    ensures
        final(s)@ == old(s)@.push(c),
{
    s.push(c)
}

/// A `String` holding the given characters.
pub fn string_of(v: &Vec<char>) -> (r: String)
    ensures
        r@ == v@,
{
    let mut r = String::new();
    let n = v.len();
    for i in 0..n
        invariant
            n == v.len(),
            r@ == v@.take(i as int),
    {
        push_char(&mut r, v[i]);
        assert(v@.take(i + 1) =~= v@.take(i as int).push(v@[i as int]));
    }
    assert(v@.take(n as int) =~= v@);
    r
}

/// A copy of `v[from..to]`.
pub fn copy_range(v: &Vec<char>, from: usize, to: usize) -> (r: Vec<char>)
    requires
        from <= to <= v.len(),
    ensures
        r@ == v@.subrange(from as int, to as int),
{
    let mut r: Vec<char> = Vec::new();
    let mut k = from;
    while k < to
        invariant
            from <= k <= to <= v.len(),
            r@ == v@.subrange(from as int, k as int),
        decreases to - k,
    {
        r.push(v[k]);
        k = k + 1;
        assert(r@ =~= v@.subrange(from as int, k as int));
    }
    r
}

/// Whether two character vectors hold the same characters.
pub fn chars_eq(a: &Vec<char>, b: &Vec<char>) -> (r: bool)
    ensures
        r == (a@ == b@),
{
    if a.len() != b.len() {
        return false;
    }
    let n = a.len();
    for i in 0..n
        invariant
            n == a.len(),
            n == b.len(),
            forall|k: int| 0 <= k < i ==> a@[k] == b@[k],
    {
        if a[i] != b[i] {
            return false;
        }
    }
    assert(a@ =~= b@);
    true
}

/// Appends the characters of `v` to `r`.
pub fn push_all(r: &mut Vec<char>, v: &Vec<char>)
    ensures
        final(r)@ == old(r)@ + v@,
{
    let n = v.len();
    for i in 0..n
        invariant
            n == v.len(),
            r@ == old(r)@ + v@.take(i as int),
    {
        r.push(v[i]);
        assert(v@.take(i + 1) =~= v@.take(i as int).push(v@[i as int]));
    }
    assert(v@.take(n as int) =~= v@);
}

/// `s` without its leading whitespace.
pub open spec fn trim_start(s: Seq<char>) -> Seq<char>
    decreases s.len(),
{
    if s.len() > 0 && is_ws(s[0]) {
        trim_start(s.drop_first())
    } else {
        s
    }
}

/// `s` without its trailing whitespace.
pub open spec fn trim_end(s: Seq<char>) -> Seq<char>
    decreases s.len(),
{
    if s.len() > 0 && is_ws(s.last()) {
        trim_end(s.drop_last())
    } else {
        s
    }
}

/// `s` without leading and trailing whitespace, as `str::trim` gives it.
pub open spec fn trim(s: Seq<char>) -> Seq<char> {
    trim_end(trim_start(s))
}

/// `s` is empty, or starts and ends with a non-whitespace character.
pub open spec fn is_trimmed(s: Seq<char>) -> bool {
    s.len() == 0 || (!is_ws(s[0]) && !is_ws(s.last()))
}

proof fn lemma_trim_start_shape(s: Seq<char>)
    ensures
        trim_start(s).len() == 0 || !is_ws(trim_start(s)[0]),
    decreases s.len(),
{
    if s.len() > 0 && is_ws(s[0]) {
        lemma_trim_start_shape(s.drop_first());
    }
}

proof fn lemma_trim_end_shape(s: Seq<char>)
    ensures
        trim_end(s).len() <= s.len(),
        trim_end(s) == s.take(trim_end(s).len() as int),
        trim_end(s).len() == 0 || !is_ws(trim_end(s).last()),
    decreases s.len(),
{
    if s.len() > 0 && is_ws(s.last()) {
        lemma_trim_end_shape(s.drop_last());
        assert(s.drop_last().take(trim_end(s).len() as int) =~= s.take(trim_end(s).len() as int));
    } else {
        assert(s.take(s.len() as int) =~= s);
    }
}

/// What `trim` gives is trimmed.
pub proof fn lemma_trim_is_trimmed(s: Seq<char>)
    ensures
        is_trimmed(trim(s)),
{
    lemma_trim_start_shape(s);
    lemma_trim_end_shape(trim_start(s));
    let t = trim(s);
    if t.len() > 0 {
        assert(t[0] == trim_start(s)[0]);
    }
}

/// A trimmed sequence is its own trim.
pub proof fn lemma_trimmed_fixed(s: Seq<char>)
    requires
        is_trimmed(s),
    ensures
        trim(s) == s,
{
}

/// Trimming twice trims once.
pub proof fn lemma_trim_idempotent(s: Seq<char>)
    ensures
        trim(trim(s)) == trim(s),
{
    lemma_trim_is_trimmed(s);
    lemma_trimmed_fixed(trim(s));
}

/// Removes leading and trailing whitespace.
pub fn trim_chars(v: &Vec<char>) -> (r: Vec<char>)
    ensures
        r@ == trim(v@),
{
    let n = v.len();
    let mut i: usize = 0;
    assert(v@.skip(0) =~= v@);
    while i < n && is_whitespace(v[i])
        invariant
            n == v.len(),
            i <= n,
            trim_start(v@) == trim_start(v@.skip(i as int)),
        decreases n - i,
    {
        assert(v@.skip(i as int).drop_first() =~= v@.skip(i + 1));
        i = i + 1;
    }
    assert(trim_start(v@.skip(i as int)) == v@.skip(i as int));
    assert(v@.skip(i as int) =~= v@.subrange(i as int, n as int));
    let mut j: usize = n;
    while j > i && is_whitespace(v[j - 1])
        invariant
            n == v.len(),
            i <= j <= n,
            trim(v@) == trim_end(v@.subrange(i as int, j as int)),
        decreases j - i,
    {
        assert(v@.subrange(i as int, j as int).drop_last() =~= v@.subrange(i as int, j - 1));
        j = j - 1;
    }
    copy_range(v, i, j)
}

/// Trims a string slice, as `str::trim` does.
pub fn trim_str(s: &str) -> (r: String)
    ensures
        r@ == trim(s@),
{
    let v = chars_of(s);
    let t = trim_chars(&v);
    string_of(&t)
}


/// The number of characters before the first line feed of `t`, or its
/// length where it holds none.
pub open spec fn line_len(t: Seq<char>) -> nat
    decreases t.len(),
{
    if t.len() == 0 || t[0] == '\n' {
        0
    } else {
        1 + line_len(t.drop_first())
    }
}

proof fn lemma_line_len(t: Seq<char>)
    ensures
        line_len(t) <= t.len(),
        line_len(t) < t.len() ==> t[line_len(t) as int] == '\n',
        forall|k: int| 0 <= k < line_len(t) ==> t[k] != '\n',
    decreases t.len(),
{
    if t.len() > 0 && t[0] != '\n' {
        lemma_line_len(t.drop_first());
        assert forall|k: int| 0 <= k < line_len(t) implies t[k] != '\n' by {
            if k > 0 {
                assert(t[k] == t.drop_first()[k - 1]);
            }
        }
    }
}

proof fn lemma_line_len_at(t: Seq<char>, k: int)
    requires
        0 <= k <= t.len(),
        k < t.len() ==> t[k] == '\n',
        forall|m: int| 0 <= m < k ==> t[m] != '\n',
    ensures
        line_len(t) == k,
    decreases t.len(),
{
    if k > 0 {
        lemma_line_len_at(t.drop_first(), k - 1);
    }
}

/// A line without the carriage return that ends it, if any.
pub open spec fn strip_cr(l: Seq<char>) -> Seq<char> {
    if l.len() > 0 && l.last() == '\r' {
        l.drop_last()
    } else {
        l
    }
}

/// The lines of `t`, as `str::lines` and `BufRead::lines` give them: `t`
/// split at each line feed, the line feed dropped and a carriage return
/// just before it dropped too; a last line that no line feed ends is kept
/// as it stands, and a text that ends in a line feed has no empty last line.
pub open spec fn lines_of(t: Seq<char>) -> Seq<Seq<char>>
    decreases t.len(),
{
    if t.len() == 0 {
        seq![]
    } else {
        let k = line_len(t);
        if k >= t.len() {
            seq![t]
        } else {
            seq![strip_cr(t.take(k as int))] + lines_of(t.skip(k + 1 as int))
        }
    }
}

/// Drops a carriage return at the end of `l`.
pub fn strip_cr_chars(l: Vec<char>) -> (r: Vec<char>)
    ensures
        r@ == strip_cr(l@),
{
    let mut l = l;
    if l.len() > 0 && l[l.len() - 1] == '\r' {
        l.pop();
    }
    l
}

/// The lines of a text whose first line `a` is followed by a line feed.
pub proof fn lemma_lines_first(a: Seq<char>, rest: Seq<char>)
    requires
        forall|i: int| 0 <= i < a.len() ==> #[trigger] a[i] != '\n',
        a.len() > 0 ==> a.last() != '\r',
    ensures
        lines_of(a + seq!['\n'] + rest) == seq![a] + lines_of(rest),
{
    let t = a + seq!['\n'] + rest;
    lemma_line_len_at(t, a.len() as int);
    assert(t.take(a.len() as int) =~= a);
    assert(t.skip(a.len() + 1 as int) =~= rest);
}

/// The lines of a text with no line feed.
pub proof fn lemma_lines_last(a: Seq<char>)
    requires
        a.len() > 0,
        forall|i: int| 0 <= i < a.len() ==> #[trigger] a[i] != '\n',
    ensures
        lines_of(a) == seq![a],
{
    lemma_line_len_at(a, a.len() as int);
}

/// `s` holds no `c`.
pub open spec fn free_of(s: Seq<char>, c: char) -> bool {
    forall|j: int| 0 <= j < s.len() ==> s[j] != c
}

/// No line holds a line feed, and where the text holds no carriage return
/// no line holds one.
pub proof fn lemma_lines_chars(t: Seq<char>)
    ensures
        forall|i: int| 0 <= i < lines_of(t).len() ==> free_of(#[trigger] lines_of(t)[i], '\n'),
        free_of(t, '\r') ==> forall|i: int|
            0 <= i < lines_of(t).len() ==> free_of(#[trigger] lines_of(t)[i], '\r'),
    decreases t.len(),
{
    if t.len() > 0 {
        let k = line_len(t);
        lemma_line_len(t);
        if k < t.len() {
            let rest = t.skip(k + 1 as int);
            lemma_lines_chars(rest);
            let first = strip_cr(t.take(k as int));
            assert(lines_of(t) == seq![first] + lines_of(rest));
            assert(free_of(first, '\n'));
            if free_of(t, '\r') {
                assert(free_of(first, '\r'));
                assert(free_of(rest, '\r'));
            }
            assert forall|i: int| 0 <= i < lines_of(t).len() implies free_of(
                #[trigger] lines_of(t)[i],
                '\n',
            ) by {
                if i > 0 {
                    assert(lines_of(t)[i] == lines_of(rest)[i - 1]);
                }
            }
            if free_of(t, '\r') {
                assert forall|i: int| 0 <= i < lines_of(t).len() implies free_of(
                    #[trigger] lines_of(t)[i],
                    '\r',
                ) by {
                    if i > 0 {
                        assert(lines_of(t)[i] == lines_of(rest)[i - 1]);
                    }
                }
            }
        } else {
            assert(lines_of(t) == seq![t]);
        }
    }
}

/// The characters of an optional string.
pub open spec fn opt_view(o: Option<String>) -> Option<Seq<char>> {
    match o {
        Some(s) => Some(s@),
        None => None,
    }
}

/// The character sequences that a sequence of strings holds.
pub open spec fn strs(v: Seq<String>) -> Seq<Seq<char>> {
    v.map_values(|s: String| s@)
}

/// The character sequences that a vector of character vectors holds.
pub open spec fn views(r: Seq<Vec<char>>) -> Seq<Seq<char>> {
    r.map_values(|l: Vec<char>| l@)
}

/// Splits `v` into its lines (see `lines_of`).
pub fn split_lines(v: &Vec<char>) -> (r: Vec<Vec<char>>)
    ensures
        views(r@) == lines_of(v@),
{
    let n = v.len();
    let mut r: Vec<Vec<char>> = Vec::new();
    let mut cur: Vec<char> = Vec::new();
    let mut start: usize = 0;
    let mut i: usize = 0;
    assert(v@.skip(0) =~= v@);
    while i < n
        invariant
            n == v.len(),
            start <= i <= n,
            cur@ == v@.subrange(start as int, i as int),
            forall|m: int| start <= m < i ==> v@[m] != '\n',
            lines_of(v@) == views(r@) + lines_of(v@.skip(start as int)),
        decreases n - i,
    {
        let c = v[i];
        if c == '\n' {
            let ghost t = v@.skip(start as int);
            proof {
                lemma_line_len_at(t, i - start);
                assert(t.take(i - start) =~= cur@);
                assert(t.skip(i - start + 1) =~= v@.skip(i + 1));
            }
            let line = strip_cr_chars(cur);
            let ghost old_r = views(r@);
            r.push(line);
            assert(views(r@) =~= old_r.push(line@));
            cur = Vec::new();
            i = i + 1;
            start = i;
            assert(cur@ =~= v@.subrange(start as int, i as int));
        } else {
            cur.push(c);
            i = i + 1;
            assert(cur@ =~= v@.subrange(start as int, i as int));
        }
    }
    let ghost t = v@.skip(start as int);
    if start < n {
        proof {
            lemma_line_len_at(t, n - start);
            assert(cur@ =~= t);
        }
        let ghost old_r = views(r@);
        r.push(cur);
        assert(views(r@) =~= old_r.push(t));
    } else {
        assert(t.len() == 0);
        assert(views(r@) + lines_of(t) =~= views(r@));
    }
    r
}

} // verus!
