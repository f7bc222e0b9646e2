//! Character-level text handling shared by the parsers and formatters of the
//! library: trimming, splitting, line breaking, searching and decimal
//! conversion, each stated over `Seq<char>` and matching what the standard
//! library's `str` methods of the same name do.
use vstd::prelude::*;

verus! {

// ---------------------------------------------------------------------
// Specifications
// ---------------------------------------------------------------------

/// Unicode `White_Space`, the set `char::is_whitespace` tests.
pub open spec fn is_ws(c: char) -> bool {
    let x = c as u32;
    (0x9 <= x && x <= 0xd) || x == 0x20 || x == 0x85 || x == 0xa0 || x == 0x1680 || (0x2000
        <= x && x <= 0x200a) || x == 0x2028 || x == 0x2029 || x == 0x202f || x == 0x205f || x
        == 0x3000
}

/// `str::trim_start`.
pub open spec fn trim_start(s: Seq<char>) -> Seq<char>
    decreases s.len(),
{
    if s.len() > 0 && is_ws(s[0]) {
        trim_start(s.drop_first())
    } else {
        s
    }
}

/// `str::trim_end`.
pub open spec fn trim_end(s: Seq<char>) -> Seq<char>
    decreases s.len(),
{
    if s.len() > 0 && is_ws(s.last()) {
        trim_end(s.drop_last())
    } else {
        s
    }
}

/// `str::trim`.
pub open spec fn trim(s: Seq<char>) -> Seq<char> {
    trim_end(trim_start(s))
}

/// Whether `s` consists of white space only (or is empty).
pub open spec fn is_blank(s: Seq<char>) -> bool {
    trim(s).len() == 0
}

/// `str::split(c)`: the pieces between the occurrences of `c`; always one
/// more piece than occurrences.
pub open spec fn split_on(s: Seq<char>, c: char) -> Seq<Seq<char>>
    decreases s.len(),
{
    if s.len() == 0 {
        seq![Seq::<char>::empty()]
    } else {
        let r = split_on(s.drop_first(), c);
        if s[0] == c {
            seq![Seq::<char>::empty()] + r
        } else {
            r.update(0, seq![s[0]] + r[0])
        }
    }
}

/// The character sequences held by a list of character vectors.
pub open spec fn views(vs: Seq<Vec<char>>) -> Seq<Seq<char>> {
    vs.map_values(|x: Vec<char>| x@)
}

/// Whether `sep` occurs in `s` at position `i`.
pub open spec fn occurs_at(s: Seq<char>, sep: Seq<char>, i: int) -> bool {
    0 <= i && i + sep.len() <= s.len() && s.subrange(i, i + sep.len()) == sep
}

/// Whether `p` occurs somewhere in `s` (`str::contains`).
pub open spec fn contains_seq(s: Seq<char>, p: Seq<char>) -> bool {
    exists|i: int| occurs_at(s, p, i)
}

/// `str::split(sep)` for a non-empty separator: leftmost, non-overlapping.
pub open spec fn split_str(s: Seq<char>, sep: Seq<char>) -> Seq<Seq<char>>
    recommends
        sep.len() > 0,
    decreases s.len(),
{
    if sep.len() == 0 || s.len() < sep.len() {
        seq![s]
    } else if s.take(sep.len() as int) == sep {
        seq![Seq::<char>::empty()] + split_str(s.skip(sep.len() as int), sep)
    } else {
        let r = split_str(s.drop_first(), sep);
        r.update(0, seq![s[0]] + r[0])
    }
}

/// Drops one trailing carriage return.
pub open spec fn strip_cr(s: Seq<char>) -> Seq<char> {
    if s.len() > 0 && s.last() == '\r' {
        s.drop_last()
    } else {
        s
    }
}

/// `str::lines`: split at `\n`; a `\r` right before a `\n` belongs to the
/// line break; a final line break adds no empty line.
pub open spec fn lines(s: Seq<char>) -> Seq<Seq<char>> {
    let p = split_on(s, '\n');
    if s.len() == 0 {
        Seq::empty()
    } else if s.last() == '\n' {
        Seq::new((p.len() - 1) as nat, |i: int| strip_cr(p[i]))
    } else {
        Seq::new(p.len(), |i: int| if i < p.len() - 1 { strip_cr(p[i]) } else { p[i] })
    }
}

/// The pieces joined with `sep` in between (`[T]::join`).
pub open spec fn join(parts: Seq<Seq<char>>, sep: Seq<char>) -> Seq<char>
    decreases parts.len(),
{
    if parts.len() == 0 {
        Seq::empty()
    } else if parts.len() == 1 {
        parts[0]
    } else {
        join(parts.drop_last(), sep) + sep + parts.last()
    }
}

/// The ASCII digit for `d < 10`.
pub open spec fn digit_char(d: nat) -> char {
    ((d + 48) as u32) as char
}

/// Whether `c` is an ASCII digit.
pub open spec fn is_digit(c: char) -> bool {
    '0' <= c && c <= '9'
}

/// Value of a digit character.
pub open spec fn digit_value(c: char) -> nat {
    ((c as u32) - 48) as nat
}

/// Decimal notation of `n`, without leading zeros (`u64::to_string`).
pub open spec fn decimal(n: nat) -> Seq<char>
    decreases n,
{
    if n < 10 {
        seq![digit_char(n)]
    } else {
        decimal(n / 10).push(digit_char(n % 10))
    }
}

/// `s` padded on the left with `'0'` to at least `width` characters
/// (`format!("{:0width$}")`).
pub open spec fn zero_pad(s: Seq<char>, width: nat) -> Seq<char> {
    if s.len() >= width {
        s
    } else {
        Seq::new((width - s.len()) as nat, |i: int| '0') + s
    }
}

/// Value of a string of digits.
pub open spec fn digits_value(d: Seq<char>) -> nat
    decreases d.len(),
{
    if d.len() == 0 {
        0
    } else {
        digits_value(d.drop_last()) * 10 + digit_value(d.last())
    }
}

/// Whether all characters of `d` are ASCII digits.
pub open spec fn all_digits(d: Seq<char>) -> bool {
    forall|i: int| 0 <= i < d.len() ==> is_digit(#[trigger] d[i])
}

/// `str::parse` for an unsigned integer type whose largest value is `max`:
/// an optional `+` followed by one or more digits, of value at most `max`.
pub open spec fn parse_unsigned(s: Seq<char>, max: nat) -> Option<nat> {
    let d = if s.len() > 0 && s[0] == '+' {
        s.drop_first()
    } else {
        s
    };
    if d.len() > 0 && all_digits(d) && digits_value(d) <= max {
        Some(digits_value(d))
    } else {
        None
    }
}


/// The character sequences held by a list of strings.
pub open spec fn str_views(vs: Seq<String>) -> Seq<Seq<char>> {
    vs.map_values(|x: String| x@)
}

/// Parse result as mathematical integers.
pub open spec fn opt_nat(r: Option<u64>) -> Option<nat> {
    match r {
        Some(x) => Some(x as nat),
        None => None,
    }
}

/// Result of `to_lowercase` (std `str::to_lowercase`, full Unicode case
/// mapping).
pub uninterp spec fn spec_lowercase(s: Seq<char>) -> Seq<char>;

/// Whether every character is ASCII.
pub open spec fn all_ascii(s: Seq<char>) -> bool {
    forall|i: int| 0 <= i < s.len() ==> (#[trigger] s[i] as u32) < 128
}

/// The lower-case form of an ASCII letter; other characters stay.
pub open spec fn ascii_lower(c: char) -> char {
    if 'A' <= c && c <= 'Z' {
        (c as u32 + 32) as char
    } else {
        c
    }
}

/// Index of the last `c` in `s`, or -1.
pub open spec fn last_index(s: Seq<char>, c: char) -> int
    decreases s.len(),
{
    if s.len() == 0 {
        -1
    } else if s.last() == c {
        s.len() - 1
    } else {
        last_index(s.drop_last(), c)
    }
}

/// `last_index` is -1 or an index holding `c`.
pub proof fn lemma_last_index_range(s: Seq<char>, c: char)
    ensures
        -1 <= last_index(s, c) < s.len(),
        last_index(s, c) >= 0 ==> s[last_index(s, c)] == c,
    decreases s.len(),
{
    if s.len() > 0 && s.last() != c {
        lemma_last_index_range(s.drop_last(), c);
    }
}

/// A bare file name: not empty, without `/`, and neither `.` nor `..`
/// (as a path, it is one normal component).
pub open spec fn bare_file_name(p: Seq<char>) -> bool {
    p.len() > 0 && !p.contains('/') && p != seq!['.'] && p != seq!['.', '.']
}

/// Index of the first `c` in `s` at or after `lo` and before `hi`.
pub open spec fn first_index_in(s: Seq<char>, c: char, lo: int, hi: int, k: int) -> bool {
    lo <= k < hi && s[k] == c && forall|j: int| lo <= j < k ==> s[j] != c
}

/// Whether `c` occurs in `s[lo..hi]`.
pub open spec fn has_char_in(s: Seq<char>, c: char, lo: int, hi: int) -> bool {
    exists|j: int| lo <= j < hi && s[j] == c
}


/// Index of the first element of `s` satisfying `p`, or -1.
pub open spec fn find_first<A>(s: Seq<A>, p: spec_fn(A) -> bool) -> int
    decreases s.len(),
{
    if s.len() == 0 {
        -1
    } else if p(s[0]) {
        0
    } else {
        let r = find_first(s.drop_first(), p);
        if r < 0 {
            -1
        } else {
            r + 1
        }
    }
}

/// The predicate "is `c`".
pub open spec fn char_is(c: char) -> spec_fn(char) -> bool {
    |x: char| x == c
}

/// `str::trim_matches(c)`.
pub open spec fn trim_char(s: Seq<char>, c: char) -> Seq<char> {
    trim_end_char(trim_start_char(s, c), c)
}

/// `str::trim_start_matches(c)`.
pub open spec fn trim_start_char(s: Seq<char>, c: char) -> Seq<char>
    decreases s.len(),
{
    if s.len() > 0 && s[0] == c {
        trim_start_char(s.drop_first(), c)
    } else {
        s
    }
}

/// `str::trim_end_matches(c)`.
pub open spec fn trim_end_char(s: Seq<char>, c: char) -> Seq<char>
    decreases s.len(),
{
    if s.len() > 0 && s.last() == c {
        trim_end_char(s.drop_last(), c)
    } else {
        s
    }
}

// ---------------------------------------------------------------------
// Lemmas
// ---------------------------------------------------------------------

/// A piece list of `split_on` is never empty.
pub proof fn lemma_split_on_nonempty(s: Seq<char>, c: char)
    ensures
        split_on(s, c).len() >= 1,
    decreases s.len(),
{
    if s.len() > 0 {
        lemma_split_on_nonempty(s.drop_first(), c);
    }
}

/// A piece list of `split_str` is never empty.
pub proof fn lemma_split_str_nonempty(s: Seq<char>, sep: Seq<char>)
    ensures
        split_str(s, sep).len() >= 1,
    decreases s.len(),
{
    if sep.len() > 0 && s.len() >= sep.len() {
        if s.take(sep.len() as int) == sep {
            lemma_split_str_nonempty(s.skip(sep.len() as int), sep);
        } else {
            lemma_split_str_nonempty(s.drop_first(), sep);
        }
    }
}

/// The decimal notation of a number has at least one character, all digits.
pub proof fn lemma_decimal_digits(n: nat)
    ensures
        decimal(n).len() >= 1,
        all_digits(decimal(n)),
        digits_value(decimal(n)) == n,
    decreases n,
{
    assert(digit_value(digit_char(n % 10)) == n % 10);
    if n >= 10 {
        lemma_decimal_digits(n / 10);
        let d = decimal(n);
        assert(d.drop_last() =~= decimal(n / 10));
        assert(d.last() == digit_char(n % 10));
        assert(digits_value(d) == digits_value(decimal(n / 10)) * 10 + digit_value(d.last()));
        assert((n / 10) * 10 + n % 10 == n);
    } else {
        assert(decimal(n).drop_last() =~= Seq::<char>::empty());
        assert(digits_value(Seq::<char>::empty()) == 0);
        assert(n % 10 == n);
    }
}

/// Digit strings with a longer prefix are worth at least as much.
pub proof fn lemma_digits_value_prefix(d: Seq<char>, k: int)
    requires
        0 <= k <= d.len(),
        all_digits(d),
    ensures
        digits_value(d.take(k)) <= digits_value(d),
    decreases d.len() - k,
{
    if k < d.len() {
        lemma_digits_value_prefix(d, k + 1);
        assert(d.take(k + 1).drop_last() =~= d.take(k));
    } else {
        assert(d.take(k) =~= d);
    }
}


/// `find_first` is the first index that satisfies the predicate.
pub proof fn lemma_find_first_at<A>(s: Seq<A>, p: spec_fn(A) -> bool, k: int)
    requires
        0 <= k < s.len(),
        p(s[k]),
        forall|j: int| 0 <= j < k ==> !p(#[trigger] s[j]),
    ensures
        find_first(s, p) == k,
    decreases k,
{
    if k > 0 {
        assert(!p(s[0]));
        let t = s.drop_first();
        assert forall|j: int| 0 <= j < k - 1 implies !p(#[trigger] t[j]) by {
            assert(t[j] == s[j + 1]);
        }
        lemma_find_first_at(t, p, k - 1);
    }
}

/// `find_first` is -1 when nothing satisfies the predicate.
pub proof fn lemma_find_first_none<A>(s: Seq<A>, p: spec_fn(A) -> bool)
    requires
        forall|j: int| 0 <= j < s.len() ==> !p(#[trigger] s[j]),
    ensures
        find_first(s, p) == -1,
    decreases s.len(),
{
    if s.len() > 0 {
        let t = s.drop_first();
        assert forall|j: int| 0 <= j < t.len() implies !p(#[trigger] t[j]) by {
            assert(t[j] == s[j + 1]);
        }
        lemma_find_first_none(t, p);
    }
}

/// Either `find_first` is -1 or it is a valid index whose element satisfies
/// the predicate.
pub proof fn lemma_find_first_valid<A>(s: Seq<A>, p: spec_fn(A) -> bool)
    ensures
        -1 <= find_first(s, p) < s.len(),
        find_first(s, p) >= 0 ==> p(s[find_first(s, p)]),
    decreases s.len(),
{
    if s.len() > 0 && !p(s[0]) {
        lemma_find_first_valid(s.drop_first(), p);
    }
}

/// The first piece of `split_on` is the text up to the first separator.
pub proof fn lemma_split_on_first(s: Seq<char>, c: char, k: int)
    requires
        0 <= k <= s.len(),
        k == s.len() || s[k] == c,
        forall|j: int| 0 <= j < k ==> s[j] != c,
    ensures
        split_on(s, c)[0] == s.take(k),
    decreases k,
{
    lemma_split_on_nonempty(s, c);
    if s.len() == 0 {
        assert(s.take(k) =~= Seq::<char>::empty());
    } else if k == 0 {
        assert(s.take(0) =~= Seq::<char>::empty());
    } else {
        let t = s.drop_first();
        lemma_split_on_first(t, c, k - 1);
        lemma_split_on_nonempty(t, c);
        assert(seq![s[0]] + t.take(k - 1) =~= s.take(k));
    }
}

// ---------------------------------------------------------------------
// Executable functions
// ---------------------------------------------------------------------

/// Appends one character to a `String` (std `String::push`).
#[verifier::external_body]
pub(crate) fn push_char(s: &mut String, c: char)
    ensures
        final(s)@ == old(s)@.push(c),
{
    s.push(c);
}

/// The characters of `s`, in order.
pub fn to_chars(s: &str) -> (v: Vec<char>)
    ensures
        v@ == s@,
{
    let mut v: Vec<char> = Vec::new();
    for c in iter: s.chars()
        invariant
            v@ == iter.seq().take(iter.index() as int),
    {
        v.push(c);
    }
    v
}

/// A `String` holding the characters `v[lo..hi]`.
pub fn string_of_range(v: &Vec<char>, lo: usize, hi: usize) -> (s: String)
    requires
        lo <= hi <= v.len(),
    ensures
        s@ == v@.subrange(lo as int, hi as int),
{
    let mut s = String::new();
    let mut i: usize = lo;
    while i < hi
        invariant
            lo <= i <= hi <= v.len(),
            s@ == v@.subrange(lo as int, i as int),
        decreases hi - i,
    {
        push_char(&mut s, v[i]);
        i = i + 1;
        assert(s@ =~= v@.subrange(lo as int, i as int));
    }
    s
}

/// A `String` holding exactly the characters of `v`.
pub fn string_of(v: &Vec<char>) -> (s: String)
    ensures
        s@ == v@,
{
    let s = string_of_range(v, 0, v.len());
    assert(v@.subrange(0, v.len() as int) =~= v@);
    s
}

/// Appends the characters of `t` to `s`.
pub fn append_str(s: &mut String, t: &str)
    ensures
        final(s)@ == old(s)@ + t@,
{
    let v = to_chars(t);
    append_chars(s, &v);
}

/// Appends the characters of `v` to `s`.
pub fn append_chars(s: &mut String, v: &Vec<char>)
    ensures
        final(s)@ == old(s)@ + v@,
{
    let ghost s0 = s@;
    let mut i: usize = 0;
    while i < v.len()
        invariant
            i <= v.len(),
            s@ == s0 + v@.take(i as int),
        decreases v.len() - i,
    {
        push_char(s, v[i]);
        i = i + 1;
        assert(s@ =~= s0 + v@.take(i as int));
    }
    assert(v@.take(v.len() as int) =~= v@);
}

/// Whether two strings hold the same characters.
pub fn str_eq(a: &str, b: &str) -> (r: bool)
    ensures
        r == (a@ == b@),
{
    let x = to_chars(a);
    let y = to_chars(b);
    chars_eq(&x, &y)
}

/// Whether two character vectors are equal.
pub fn chars_eq(x: &Vec<char>, y: &Vec<char>) -> (r: bool)
    ensures
        r == (x@ == y@),
{
    if x.len() != y.len() {
        return false;
    }
    let mut i: usize = 0;
    while i < x.len()
        invariant
            x.len() == y.len(),
            i <= x.len(),
            forall|j: int| 0 <= j < i ==> x@[j] == y@[j],
        decreases x.len() - i,
    {
        if x[i] != y[i] {
            return false;
        }
        i = i + 1;
    }
    assert(x@ =~= y@);
    true
}

/// `char::is_whitespace`.
pub fn is_whitespace(c: char) -> (b: bool)
    ensures
        b == is_ws(c),
{
    let x = c as u32;
    (0x9 <= x && x <= 0xd) || x == 0x20 || x == 0x85 || x == 0xa0 || x == 0x1680 || (0x2000 <= x
        && x <= 0x200a) || x == 0x2028 || x == 0x2029 || x == 0x202f || x == 0x205f || x == 0x3000
}

/// Start of `trim_start` applied to `v[lo..hi]`.
pub fn trim_start_index(v: &Vec<char>, lo: usize, hi: usize) -> (k: usize)
    requires
        lo <= hi <= v.len(),
    ensures
        lo <= k <= hi,
        v@.subrange(k as int, hi as int) == trim_start(v@.subrange(lo as int, hi as int)),
{
    let mut k = lo;
    while k < hi && is_whitespace(v[k])
        invariant
            lo <= k <= hi <= v.len(),
            trim_start(v@.subrange(lo as int, hi as int)) == trim_start(
                v@.subrange(k as int, hi as int),
            ),
        decreases hi - k,
    {
        assert(v@.subrange(k as int, hi as int).drop_first() =~= v@.subrange(
            k + 1,
            hi as int,
        ));
        k = k + 1;
    }
    k
}

/// End of `trim_end` applied to `v[lo..hi]`.
pub fn trim_end_index(v: &Vec<char>, lo: usize, hi: usize) -> (k: usize)
    requires
        lo <= hi <= v.len(),
    ensures
        lo <= k <= hi,
        v@.subrange(lo as int, k as int) == trim_end(v@.subrange(lo as int, hi as int)),
{
    let mut k = hi;
    while k > lo && is_whitespace(v[k - 1])
        invariant
            lo <= k <= hi <= v.len(),
            trim_end(v@.subrange(lo as int, hi as int)) == trim_end(
                v@.subrange(lo as int, k as int),
            ),
        decreases k - lo,
    {
        assert(v@.subrange(lo as int, k as int).drop_last() =~= v@.subrange(
            lo as int,
            k - 1,
        ));
        k = k - 1;
    }
    k
}

/// Bounds of `trim` applied to `v[lo..hi]`.
pub fn trim_range(v: &Vec<char>, lo: usize, hi: usize) -> (r: (usize, usize))
    requires
        lo <= hi <= v.len(),
    ensures
        lo <= r.0 <= r.1 <= hi,
        v@.subrange(r.0 as int, r.1 as int) == trim(v@.subrange(lo as int, hi as int)),
{
    let a = trim_start_index(v, lo, hi);
    let b = trim_end_index(v, a, hi);
    (a, b)
}

/// `str::trim`, as a new `String`.
pub fn trim_chars(v: &Vec<char>) -> (s: String)
    ensures
        s@ == trim(v@),
{
    let (a, b) = trim_range(v, 0, v.len());
    assert(v@.subrange(0, v.len() as int) =~= v@);
    string_of_range(v, a, b)
}

/// `str::trim` on a string slice.
pub fn trim_str(s: &str) -> (r: String)
    ensures
        r@ == trim(s@),
{
    let v = to_chars(s);
    trim_chars(&v)
}

/// `str::split(c)` on `v`.
pub fn split_chars(v: &Vec<char>, c: char) -> (parts: Vec<Vec<char>>)
    ensures
        views(parts@) == split_on(v@, c),
{
    let mut done: Vec<Vec<char>> = Vec::new();
    let mut cur: Vec<char> = Vec::new();
    let mut i: usize = 0;
    proof {
        lemma_split_on_nonempty(v@, c);
        assert(v@.skip(0) =~= v@);
        let r = split_on(v@, c);
        assert(views(done@) + seq![cur@ + r[0]] + r.drop_first() =~= r);
    }
    while i < v.len()
        invariant
            i <= v.len(),
            ({
                let r = split_on(v@.skip(i as int), c);
                split_on(v@, c) == views(done@) + seq![cur@ + r[0]] + r.drop_first()
            }),
        decreases v.len() - i,
    {
        let ghost r = split_on(v@.skip(i as int), c);
        let ghost r1 = split_on(v@.skip(i + 1), c);
        proof {
            assert(v@.skip(i as int).drop_first() =~= v@.skip(i + 1));
            lemma_split_on_nonempty(v@.skip(i + 1), c);
        }
        if v[i] == c {
            let ghost old_done = views(done@);
            let ghost old_cur = cur@;
            done.push(cur);
            cur = Vec::new();
            proof {
                assert(r =~= seq![Seq::<char>::empty()] + r1);
                assert(views(done@) =~= old_done.push(old_cur));
                assert(seq![cur@ + r1[0]] =~= seq![r1[0]]);
                assert(old_done + seq![old_cur + r[0]] + r.drop_first() =~= views(done@)
                    + seq![cur@ + r1[0]] + r1.drop_first());
            }
        } else {
            let ghost old_cur = cur@;
            cur.push(v[i]);
            proof {
                assert(r =~= r1.update(0, seq![v@[i as int]] + r1[0]));
                assert(old_cur + r[0] =~= cur@ + r1[0]);
                assert(r.drop_first() =~= r1.drop_first());
            }
        }
        i = i + 1;
    }
    proof {
        assert(v@.skip(v.len() as int) =~= Seq::<char>::empty());
        let r = split_on(v@.skip(i as int), c);
        assert(r =~= seq![Seq::<char>::empty()]);
        assert(cur@ + r[0] =~= cur@);
        assert(r.drop_first() =~= Seq::<Seq<char>>::empty());
    }
    let ghost old_done = views(done@);
    done.push(cur);
    proof {
        assert(views(done@) =~= old_done.push(cur@));
    }
    done
}

/// `str::to_lowercase`, the full Unicode lower-case mapping of std; on
/// ASCII text that mapping turns `A`–`Z` into `a`–`z` and keeps every other
/// character (Unicode's lower-case mapping of ASCII).
#[verifier::external_body]
pub(crate) fn to_lowercase(s: &str) -> (r: String)
    ensures
        r@ == spec_lowercase(s@),
        all_ascii(s@) ==> r@ == s@.map_values(|c: char| ascii_lower(c)),
{
    s.to_lowercase()
}

/// The ASCII digit for `d < 10`.
pub fn digit(d: u64) -> (c: char)
    requires
        d < 10,
    ensures
        c == digit_char(d as nat),
{
    ((d as u8) + 48) as char
}

/// Appends the decimal notation of `n`.
pub fn push_decimal(s: &mut String, n: u64)
    ensures
        final(s)@ == old(s)@ + decimal(n as nat),
    decreases n,
{
    if n >= 10 {
        push_decimal(s, n / 10);
    }
    let c = digit(n % 10);
    let ghost mid = s@;
    push_char(s, c);
    proof {
        if n >= 10 {
            assert(final(s)@ =~= old(s)@ + decimal(n as nat)) by {
                assert(decimal(n as nat) == decimal((n / 10) as nat).push(digit_char((n % 10) as nat)));
            }
        } else {
            assert(old(s)@ =~= mid);
            assert(decimal(n as nat) =~= seq![digit_char(n as nat)]);
        }
    }
}

/// Appends the decimal notation of `n`, padded with zeros to `width`.
pub fn push_padded(s: &mut String, n: u64, width: usize)
    ensures
        final(s)@ == old(s)@ + zero_pad(decimal(n as nat), width as nat),
{
    let mut d = String::new();
    push_decimal(&mut d, n);
    let dv = to_chars(d.as_str());
    let ghost s0 = s@;
    let mut k: usize = dv.len();
    while k < width
        invariant
            dv.len() <= k <= width || (k == dv.len() && k >= width),
            s@ == s0 + Seq::new((k - dv.len()) as nat, |i: int| '0'),
        decreases width - k,
    {
        push_char(s, '0');
        k = k + 1;
        assert(s@ =~= s0 + Seq::new((k - dv.len()) as nat, |i: int| '0'));
    }
    append_chars(s, &dv);
    proof {
        if dv.len() >= width {
            assert(s@ =~= s0 + dv@);
        } else {
            assert(k == width);
        }
    }
}

/// `u64::to_string`.
pub fn u64_to_string(n: u64) -> (s: String)
    ensures
        s@ == decimal(n as nat),
{
    let mut s = String::new();
    push_decimal(&mut s, n);
    s
}

/// Whether `p` occurs in `v` at position `i`.
pub fn occurs_at_exec(v: &Vec<char>, p: &Vec<char>, i: usize) -> (r: bool)
    ensures
        r == occurs_at(v@, p@, i as int),
{
    if i > v.len() || p.len() > v.len() - i {
        return false;
    }
    let mut j: usize = 0;
    while j < p.len()
        invariant
            j <= p.len(),
            i + p.len() <= v.len(),
            forall|t: int| 0 <= t < j ==> v@[i + t] == p@[t],
        decreases p.len() - j,
    {
        if v[i + j] != p[j] {
            assert(v@.subrange(i as int, i + p.len())[j as int] != p@[j as int]);
            return false;
        }
        j = j + 1;
    }
    assert(v@.subrange(i as int, i + p.len()) =~= p@);
    true
}

/// `str::contains` for a character vector and a pattern.
pub fn contains_chars(v: &Vec<char>, p: &Vec<char>) -> (r: bool)
    ensures
        r == contains_seq(v@, p@),
{
    if p.len() > v.len() {
        return false;
    }
    let mut i: usize = 0;
    let last = v.len() - p.len();
    while i < last
        invariant
            p.len() <= v.len(),
            last == v.len() - p.len(),
            i <= last,
            forall|t: int| 0 <= t < i ==> !occurs_at(v@, p@, t),
        decreases last - i,
    {
        if occurs_at_exec(v, p, i) {
            return true;
        }
        i = i + 1;
    }
    if occurs_at_exec(v, p, last) {
        return true;
    }
    proof { true_if_none(v@, p@); }
    false
}

proof fn true_if_none(v: Seq<char>, p: Seq<char>)
    requires
        p.len() <= v.len(),
        forall|t: int| 0 <= t < v.len() - p.len() + 1 ==> !occurs_at(v, p, t),
    ensures
        !contains_seq(v, p),
{
}

/// `str::contains` on string slices.
pub fn str_contains(s: &str, p: &str) -> (r: bool)
    ensures
        r == contains_seq(s@, p@),
{
    let v = to_chars(s);
    let w = to_chars(p);
    contains_chars(&v, &w)
}

/// `str::starts_with` on string slices.
pub fn str_starts_with(s: &str, p: &str) -> (r: bool)
    ensures
        r == occurs_at(s@, p@, 0),
{
    let v = to_chars(s);
    let w = to_chars(p);
    occurs_at_exec(&v, &w, 0)
}

/// `str::ends_with` on string slices.
pub fn str_ends_with(s: &str, p: &str) -> (r: bool)
    ensures
        r == (p@.len() <= s@.len() && occurs_at(s@, p@, s@.len() - p@.len())),
{
    let v = to_chars(s);
    let w = to_chars(p);
    if w.len() > v.len() {
        return false;
    }
    occurs_at_exec(&v, &w, v.len() - w.len())
}

/// First position of `c` in `v[lo..hi]`, if any.
pub fn find_char_in(v: &Vec<char>, c: char, lo: usize, hi: usize) -> (r: Option<usize>)
    requires
        lo <= hi <= v.len(),
    ensures
        match r {
            Some(k) => first_index_in(v@, c, lo as int, hi as int, k as int),
            None => !has_char_in(v@, c, lo as int, hi as int),
        },
{
    let mut k = lo;
    while k < hi
        invariant
            lo <= k <= hi <= v.len(),
            forall|j: int| lo <= j < k ==> v@[j] != c,
        decreases hi - k,
    {
        if v[k] == c {
            return Some(k);
        }
        k = k + 1;
    }
    None
}

/// `str::parse` of `v[lo..hi]` into an unsigned integer no larger than `max`.
pub fn parse_unsigned_range(v: &Vec<char>, lo: usize, hi: usize, max: u64) -> (r: Option<u64>)
    requires
        lo <= hi <= v.len(),
    ensures
        opt_nat(r) == parse_unsigned(v@.subrange(lo as int, hi as int), max as nat),
{
    let ghost s = v@.subrange(lo as int, hi as int);
    let mut start = lo;
    if hi > lo && v[lo] == '+' {
        start = lo + 1;
    }
    let ghost d = v@.subrange(start as int, hi as int);
    proof {
        if hi > lo && v@[lo as int] == '+' {
            assert(s.drop_first() =~= d);
        } else {
            assert(s =~= d);
        }
    }
    if start == hi {
        return None;
    }
    let mut acc: u64 = 0;
    let mut i = start;
    proof {
        assert(d.take(0) =~= Seq::<char>::empty());
    }
    while i < hi
        invariant
            lo <= start < hi <= v.len(),
            start <= i <= hi,
            d == v@.subrange(start as int, hi as int),
            forall|t: int| 0 <= t < i - start ==> is_digit(#[trigger] d[t]),
            acc as nat == digits_value(d.take(i - start)),
            acc <= max,
            parse_unsigned(v@.subrange(lo as int, hi as int), max as nat) == (if all_digits(d)
                && digits_value(d) <= max {
                Some(digits_value(d))
            } else {
                None
            }),
        decreases hi - i,
    {
        let c = v[i];
        if !('0' <= c && c <= '9') {
            assert(!is_digit(d[i - start]));
            return None;
        }
        let dv = (c as u32 - 48) as u64;
        let next: u128 = (acc as u128) * 10 + (dv as u128);
        proof {
            let t = d.take(i - start + 1);
            assert(t.drop_last() =~= d.take(i - start));
            assert(t.last() == c);
            assert(digits_value(t) == next);
        }
        if next > max as u128 {
            proof {
                if all_digits(d) {
                    lemma_digits_value_prefix(d, i - start + 1);
                }
            }
            return None;
        }
        acc = next as u64;
        i = i + 1;
    }
    proof {
        assert(d.take(i - start) =~= d);
        assert(all_digits(d));
    }
    Some(acc)
}

/// `str::parse::<u64>` of `s`.
pub fn parse_u64(s: &str) -> (r: Option<u64>)
    ensures
        opt_nat(r) == parse_unsigned(s@, u64::MAX as nat),
{
    let v = to_chars(s);
    let r = parse_unsigned_range(&v, 0, v.len(), u64::MAX);
    assert(v@.subrange(0, v.len() as int) =~= v@);
    r
}

/// `str::parse::<u32>` of `s`.
pub fn parse_u32(s: &str) -> (r: Option<u32>)
    ensures
        match r {
            Some(x) => parse_unsigned(s@, u32::MAX as nat) == Some(x as nat),
            None => parse_unsigned(s@, u32::MAX as nat) is None,
        },
{
    let v = to_chars(s);
    let r = parse_unsigned_range(&v, 0, v.len(), u32::MAX as u64);
    assert(v@.subrange(0, v.len() as int) =~= v@);
    match r {
        Some(x) => Some(x as u32),
        None => None,
    }
}

/// `str::split(sep)` on `v`, for a non-empty separator.
pub fn split_str_chars(v: &Vec<char>, sep: &Vec<char>) -> (parts: Vec<Vec<char>>)
    requires
        sep.len() > 0,
    ensures
        views(parts@) == split_str(v@, sep@),
{
    let mut done: Vec<Vec<char>> = Vec::new();
    let mut cur: Vec<char> = Vec::new();
    let mut i: usize = 0;
    proof {
        lemma_split_str_nonempty(v@, sep@);
        assert(v@.skip(0) =~= v@);
        let r = split_str(v@, sep@);
        assert(views(done@) + seq![cur@ + r[0]] + r.drop_first() =~= r);
    }
    while i < v.len() && sep.len() <= v.len() - i
        invariant
            i <= v.len(),
            sep.len() > 0,
            ({
                let r = split_str(v@.skip(i as int), sep@);
                split_str(v@, sep@) == views(done@) + seq![cur@ + r[0]] + r.drop_first()
            }),
        decreases v.len() - i,
    {
        let ghost w = v@.skip(i as int);
        let ghost r = split_str(w, sep@);
        if occurs_at_exec(v, sep, i) {
            let ghost r1 = split_str(v@.skip(i + sep.len()), sep@);
            proof {
                assert(w.take(sep.len() as int) =~= v@.subrange(i as int, i + sep.len()));
                assert(w.skip(sep.len() as int) =~= v@.skip(i + sep.len()));
                lemma_split_str_nonempty(v@.skip(i + sep.len()), sep@);
                assert(r =~= seq![Seq::<char>::empty()] + r1);
            }
            let ghost old_done = views(done@);
            let ghost old_cur = cur@;
            done.push(cur);
            cur = Vec::new();
            proof {
                assert(views(done@) =~= old_done.push(old_cur));
                assert(seq![cur@ + r1[0]] =~= seq![r1[0]]);
                assert(old_done + seq![old_cur + r[0]] + r.drop_first() =~= views(done@) + seq![
                    cur@ + r1[0],
                ] + r1.drop_first());
            }
            i = i + sep.len();
        } else {
            let ghost r1 = split_str(v@.skip(i + 1), sep@);
            proof {
                assert(w.take(sep.len() as int) =~= v@.subrange(i as int, i + sep.len()));
                assert(w.drop_first() =~= v@.skip(i + 1));
                lemma_split_str_nonempty(v@.skip(i + 1), sep@);
                assert(r =~= r1.update(0, seq![v@[i as int]] + r1[0]));
            }
            let ghost old_cur = cur@;
            cur.push(v[i]);
            proof {
                assert(old_cur + r[0] =~= cur@ + r1[0]);
                assert(r.drop_first() =~= r1.drop_first());
            }
            i = i + 1;
        }
    }
    let ghost w = v@.skip(i as int);
    proof {
        assert(split_str(w, sep@) =~= seq![w]);
    }
    let ghost c0 = cur@;
    let rest = {
        let mut t: Vec<char> = cur;
        let mut j = i;
        assert(t@ =~= c0 + v@.subrange(i as int, j as int));
        while j < v.len()
            invariant
                i <= j <= v.len(),
                t@ == c0 + v@.subrange(i as int, j as int),
            decreases v.len() - j,
        {
            t.push(v[j]);
            j = j + 1;
            assert(t@ =~= c0 + v@.subrange(i as int, j as int));
        }
        t
    };
    proof {
        assert(v@.subrange(i as int, v.len() as int) =~= w);
    }
    let ghost old_done = views(done@);
    done.push(rest);
    proof {
        assert(views(done@) =~= old_done.push(rest@));
        let r = split_str(w, sep@);
        assert(r.drop_first() =~= Seq::<Seq<char>>::empty());
    }
    done
}

/// `str::lines` on `v`.
pub fn lines_of(v: &Vec<char>) -> (ls: Vec<Vec<char>>)
    ensures
        views(ls@) == lines(v@),
{
    let p = split_chars(v, '\n');
    proof {
        lemma_split_on_nonempty(v@, '\n');
    }
    let mut out: Vec<Vec<char>> = Vec::new();
    if v.len() == 0 {
        assert(views(out@) =~= lines(v@));
        return out;
    }
    let ends_nl = v[v.len() - 1] == '\n';
    let n = if ends_nl {
        p.len() - 1
    } else {
        p.len()
    };
    let mut i: usize = 0;
    while i < n
        invariant
            v.len() > 0,
            views(p@) == split_on(v@, '\n'),
            p.len() >= 1,
            ends_nl == (v@.last() == '\n'),
            n as int == (if ends_nl {
                p.len() - 1
            } else {
                p.len() as int
            }),
            i <= n,
            out.len() == i,
            forall|t: int| 0 <= t < i ==> #[trigger] out@[t]@ == lines(v@)[t],
        decreases n - i,
    {
        let piece = &p[i];
        let strip = i + 1 < p.len() && piece.len() > 0 && piece[piece.len() - 1] == '\r';
        let mut q: Vec<char> = Vec::new();
        let end = if strip {
            piece.len() - 1
        } else {
            piece.len()
        };
        let mut j: usize = 0;
        while j < end
            invariant
                end <= piece.len(),
                j <= end,
                q@ == piece@.take(j as int),
            decreases end - j,
        {
            q.push(piece[j]);
            j = j + 1;
            assert(q@ =~= piece@.take(j as int));
        }
        proof {
            assert(views(p@)[i as int] == piece@);
            if strip {
                assert(q@ =~= strip_cr(piece@));
            } else {
                assert(q@ =~= piece@);
            }
        }
        out.push(q);
        i = i + 1;
    }
    proof {
        assert(views(out@) =~= lines(v@));
    }
    out
}

/// `str::lines` on a string slice.
pub fn lines_str(s: &str) -> (ls: Vec<Vec<char>>)
    ensures
        views(ls@) == lines(s@),
{
    let v = to_chars(s);
    lines_of(&v)
}

/// The text of `s` before its first `c` (`s.split(c).next()`).
pub fn before_char(s: &str, c: char) -> (r: String)
    ensures
        r@ == split_on(s@, c)[0],
{
    let v = to_chars(s);
    match find_char_in(&v, c, 0, v.len()) {
        Some(k) => {
            proof {
                lemma_split_on_first(v@, c, k as int);
                assert(v@.subrange(0, k as int) =~= v@.take(k as int));
            }
            string_of_range(&v, 0, k)
        },
        None => {
            proof {
                lemma_split_on_first(v@, c, v@.len() as int);
                assert(v@.take(v@.len() as int) =~= v@);
                assert(v@.subrange(0, v@.len() as int) =~= v@);
            }
            string_of_range(&v, 0, v.len())
        },
    }
}

/// Length of `v` once trailing `c` are removed (`str::trim_end_matches(c)`).
pub fn trim_end_char_index(v: &Vec<char>, c: char) -> (k: usize)
    ensures
        k <= v.len(),
        v@.take(k as int) == trim_end_char(v@, c),
{
    let mut k = v.len();
    assert(v@.take(k as int) =~= v@);
    while k > 0 && v[k - 1] == c
        invariant
            k <= v.len(),
            trim_end_char(v@, c) == trim_end_char(v@.take(k as int), c),
        decreases k,
    {
        assert(v@.take(k as int).drop_last() =~= v@.take(k - 1));
        k = k - 1;
    }
    k
}

/// The strings of `parts` joined with `sep` in between (`[String]::join`).
pub fn join_strings(parts: &Vec<String>, sep: &str) -> (r: String)
    ensures
        r@ == join(str_views(parts@), sep@),
{
    let mut r = String::new();
    let mut i: usize = 0;
    while i < parts.len()
        invariant
            i <= parts.len(),
            r@ == join(str_views(parts@).take(i as int), sep@),
        decreases parts.len() - i,
    {
        let ghost t = str_views(parts@).take(i + 1);
        proof {
            assert(t.drop_last() =~= str_views(parts@).take(i as int));
            assert(t.last() == parts@[i as int]@);
        }
        if i > 0 {
            append_str(&mut r, sep);
        }
        append_str(&mut r, parts[i].as_str());
        proof {
            if i == 0 {
                assert(r@ =~= t[0]);
            }
        }
        i = i + 1;
    }
    proof {
        assert(str_views(parts@).take(parts.len() as int) =~= str_views(parts@));
    }
    r
}

} // verus!
