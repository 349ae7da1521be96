//! Character-level text helpers: Unicode whitespace, trimming, line
//! splitting, prefixes, and the bridge between `&str`/`String` and `Vec<char>`.

use vstd::prelude::*;
use vstd::std_specs::iter::IteratorSpec;

verus! {

/// Unicode `White_Space`: the characters for which `char::is_whitespace`
/// holds.
pub open spec fn is_white_space(c: char) -> bool {
    let u = c as u32;
    ||| 0x9 <= u <= 0xD
    ||| u == 0x20
    ||| u == 0x85
    ||| u == 0xA0
    ||| u == 0x1680
    ||| 0x2000 <= u <= 0x200A
    ||| u == 0x2028
    ||| u == 0x2029
    ||| u == 0x202F
    ||| u == 0x205F
    ||| u == 0x3000
}

pub fn white_space(c: char) -> (r: bool)
    ensures
        r == is_white_space(c),
{
    let u = c as u32;
    (0x9 <= u && u <= 0xD) || u == 0x20 || u == 0x85 || u == 0xA0 || u == 0x1680 || (0x2000 <= u
        && u <= 0x200A) || u == 0x2028 || u == 0x2029 || u == 0x202F || u == 0x205F || u == 0x3000
}

/// Whether the two texts are equal, character by character.
pub fn str_eq(a: &str, b: &str) -> (r: bool)
    ensures
        r == (a@ == b@),
{
    vec_eq(&chars_of(a), &chars_of(b))
}

/// Appends one character to a `String`.
#[verifier::external_body]
pub(crate) fn push_char(s: &mut String, c: char)
    ensures
        final(s)@ == old(s)@.push(c),
{
    s.push(c);
}

/// The characters of `s`, in order.
pub fn chars_of(s: &str) -> (r: Vec<char>)
    ensures
        r@ == s@,
{
    let mut out: Vec<char> = Vec::new();
    for c in ci: s.chars()
        invariant
            ci.seq() == s@,
            out@ == ci.seq().take(ci.index() as int),
    {
        out.push(c);
    }
    out
}

/// Drops the leading characters that satisfy `p`.
pub open spec fn trim_start_by(s: Seq<char>, p: spec_fn(char) -> bool) -> Seq<char>
    decreases s.len(),
{
    if s.len() > 0 && p(s[0]) {
        trim_start_by(s.drop_first(), p)
    } else {
        s
    }
}

/// Drops the trailing characters that satisfy `p`.
pub open spec fn trim_end_by(s: Seq<char>, p: spec_fn(char) -> bool) -> Seq<char>
    decreases s.len(),
{
    if s.len() > 0 && p(s.last()) {
        trim_end_by(s.drop_last(), p)
    } else {
        s
    }
}

/// Drops the leading and trailing characters that satisfy `p`
/// (`str::trim_matches`).
pub open spec fn trim_by(s: Seq<char>, p: spec_fn(char) -> bool) -> Seq<char> {
    trim_end_by(trim_start_by(s, p), p)
}

pub open spec fn white_space_pred() -> spec_fn(char) -> bool {
    |c: char| is_white_space(c)
}

/// `str::trim`: the text without leading and trailing Unicode whitespace.
pub open spec fn trimmed(s: Seq<char>) -> Seq<char> {
    trim_by(s, white_space_pred())
}

/// Whether `t` is a contiguous piece of `s`.
pub open spec fn is_piece(t: Seq<char>, s: Seq<char>) -> bool {
    exists|a: int, b: int| 0 <= a <= b <= s.len() && t == #[trigger] s.subrange(a, b)
}

/// A piece of a piece is a piece.
pub proof fn lemma_piece_trans(t: Seq<char>, u: Seq<char>, s: Seq<char>)
    requires
        is_piece(t, u),
        is_piece(u, s),
    ensures
        is_piece(t, s),
{
    let (a, b) = choose|a: int, b: int| 0 <= a <= b <= u.len() && t == #[trigger] u.subrange(a, b);
    let (c, d) = choose|c: int, d: int| 0 <= c <= d <= s.len() && u == #[trigger] s.subrange(c, d);
    assert(t =~= s.subrange(c + a, c + b));
}

/// Every character of a piece of `s` is a character of `s`.
pub proof fn lemma_piece_chars(t: Seq<char>, s: Seq<char>, c: char)
    requires
        is_piece(t, s),
        forall|i: int| 0 <= i < s.len() ==> #[trigger] s[i] != c,
    ensures
        forall|i: int| 0 <= i < t.len() ==> #[trigger] t[i] != c,
{
    let (a, b) = choose|a: int, b: int| 0 <= a <= b <= s.len() && t == #[trigger] s.subrange(a, b);
    assert forall|i: int| 0 <= i < t.len() implies #[trigger] t[i] != c by {
        assert(t[i] == s[a + i]);
    }
}

/// The start of what `trim_start_by` keeps.
proof fn trim_start_index(s: Seq<char>, p: spec_fn(char) -> bool) -> (a: int)
    ensures
        0 <= a <= s.len(),
        trim_start_by(s, p) == s.subrange(a, s.len() as int),
    decreases s.len(),
{
    if s.len() > 0 && p(s[0]) {
        let a = trim_start_index(s.drop_first(), p);
        assert(s.drop_first().subrange(a, s.len() - 1) =~= s.subrange(a + 1, s.len() as int));
        a + 1
    } else {
        assert(s.subrange(0, s.len() as int) =~= s);
        0
    }
}

/// The end of what `trim_end_by` keeps.
proof fn trim_end_index(s: Seq<char>, p: spec_fn(char) -> bool) -> (b: int)
    ensures
        0 <= b <= s.len(),
        trim_end_by(s, p) == s.subrange(0, b),
    decreases s.len(),
{
    if s.len() > 0 && p(s.last()) {
        let b = trim_end_index(s.drop_last(), p);
        assert(s.drop_last().subrange(0, b) =~= s.subrange(0, b));
        b
    } else {
        assert(s.subrange(0, s.len() as int) =~= s);
        s.len() as int
    }
}

/// Trimming keeps a contiguous piece of the text.
pub proof fn lemma_trim_by_piece(s: Seq<char>, p: spec_fn(char) -> bool)
    ensures
        is_piece(trim_by(s, p), s),
{
    let a = trim_start_index(s, p);
    let mid = s.subrange(a, s.len() as int);
    let b = trim_end_index(mid, p);
    assert(mid.subrange(0, b) =~= s.subrange(a, a + b));
}

/// `str::trim` keeps a contiguous piece of the text.
pub proof fn lemma_trimmed_piece(s: Seq<char>)
    ensures
        is_piece(trimmed(s), s),
{
    lemma_trim_by_piece(s, white_space_pred());
}

/// The quote characters that a commit message may be wrapped in.
pub open spec fn is_quote(c: char) -> bool {
    c == '"' || c == '`' || c == '\''
}

pub open spec fn quote_pred() -> spec_fn(char) -> bool {
    |c: char| is_quote(c)
}

/// The text before the first `'\n'` (all of it when there is none).
pub open spec fn before_newline(s: Seq<char>) -> Seq<char>
    decreases s.len(),
{
    if s.len() == 0 {
        s
    } else if s[0] == '\n' {
        Seq::empty()
    } else {
        seq![s[0]] + before_newline(s.drop_first())
    }
}

/// The text after the first `'\n'`, or `None` when `s` has no newline.
pub open spec fn after_newline(s: Seq<char>) -> Option<Seq<char>>
    decreases s.len(),
{
    if s.len() == 0 {
        None
    } else if s[0] == '\n' {
        Some(s.drop_first())
    } else {
        after_newline(s.drop_first())
    }
}

proof fn lemma_trim_start_step(s: Seq<char>, i: int, p: spec_fn(char) -> bool)
    requires
        0 <= i < s.len(),
        p(s[i]),
    ensures
        trim_start_by(s.subrange(i, s.len() as int), p) == trim_start_by(
            s.subrange(i + 1, s.len() as int),
            p,
        ),
{
    assert(s.subrange(i, s.len() as int).drop_first() =~= s.subrange(i + 1, s.len() as int));
}

proof fn lemma_trim_end_step(s: Seq<char>, a: int, b: int, p: spec_fn(char) -> bool)
    requires
        0 <= a < b <= s.len(),
        p(s[b - 1]),
    ensures
        trim_end_by(s.subrange(a, b), p) == trim_end_by(s.subrange(a, b - 1), p),
{
    assert(s.subrange(a, b).drop_last() =~= s.subrange(a, b - 1));
}

/// The characters `v[a..b]`.
pub fn copy_range(v: &Vec<char>, a: usize, b: usize) -> (r: Vec<char>)
    requires
        a <= b <= v.len(),
    ensures
        r@ == v@.subrange(a as int, b as int),
{
    let mut out: Vec<char> = Vec::new();
    let mut i = a;
    while i < b
        invariant
            a <= i <= b <= v.len(),
            out@ == v@.subrange(a as int, i as int),
        decreases b - i,
    {
        out.push(v[i]);
        i += 1;
    }
    out
}

/// `trimmed`, on a vector of characters.
pub fn trim_chars(v: &Vec<char>) -> (r: Vec<char>)
    ensures
        r@ == trimmed(v@),
{
    let ghost p = white_space_pred();
    let n = v.len();
    let mut a: usize = 0;
    assert(v@.subrange(0, n as int) =~= v@);
    while a < n && white_space(v[a])
        invariant
            a <= n == v.len(),
            p == white_space_pred(),
            trim_start_by(v@, p) == trim_start_by(v@.subrange(a as int, n as int), p),
        decreases n - a,
    {
        proof {
            lemma_trim_start_step(v@, a as int, p);
        }
        a += 1;
    }
    assert(trim_start_by(v@, p) == v@.subrange(a as int, n as int));
    let mut b: usize = n;
    while b > a && white_space(v[b - 1])
        invariant
            a <= b <= n == v.len(),
            p == white_space_pred(),
            trim_end_by(v@.subrange(a as int, n as int), p) == trim_end_by(
                v@.subrange(a as int, b as int),
                p,
            ),
        decreases b - a,
    {
        proof {
            lemma_trim_end_step(v@, a as int, b as int, p);
        }
        b -= 1;
    }
    assert(trim_end_by(v@.subrange(a as int, b as int), p) == v@.subrange(a as int, b as int));
    copy_range(v, a, b)
}

/// `trim_by(v, quote)`: strips surrounding quote characters.
pub fn trim_quotes(v: &Vec<char>) -> (r: Vec<char>)
    ensures
        r@ == trim_by(v@, quote_pred()),
{
    let ghost p = quote_pred();
    let n = v.len();
    let mut a: usize = 0;
    assert(v@.subrange(0, n as int) =~= v@);
    while a < n && (v[a] == '"' || v[a] == '`' || v[a] == '\'')
        invariant
            a <= n == v.len(),
            p == quote_pred(),
            trim_start_by(v@, p) == trim_start_by(v@.subrange(a as int, n as int), p),
        decreases n - a,
    {
        proof {
            lemma_trim_start_step(v@, a as int, p);
        }
        a += 1;
    }
    assert(trim_start_by(v@, p) == v@.subrange(a as int, n as int));
    let mut b: usize = n;
    while b > a && (v[b - 1] == '"' || v[b - 1] == '`' || v[b - 1] == '\'')
        invariant
            a <= b <= n == v.len(),
            p == quote_pred(),
            trim_end_by(v@.subrange(a as int, n as int), p) == trim_end_by(
                v@.subrange(a as int, b as int),
                p,
            ),
        decreases b - a,
    {
        proof {
            lemma_trim_end_step(v@, a as int, b as int, p);
        }
        b -= 1;
    }
    assert(trim_end_by(v@.subrange(a as int, b as int), p) == v@.subrange(a as int, b as int));
    copy_range(v, a, b)
}

/// The index of the first `'\n'` at or after `from`, or `v.len()`.
pub fn find_newline(v: &Vec<char>, from: usize) -> (r: usize)
    requires
        from <= v.len(),
    ensures
        from <= r <= v.len(),
        r < v.len() ==> v@[r as int] == '\n',
        forall|k: int| from <= k < r ==> v@[k] != '\n',
{
    let mut i = from;
    while i < v.len() && v[i] != '\n'
        invariant
            from <= i <= v.len(),
            forall|k: int| from <= k < i ==> v@[k] != '\n',
        decreases v.len() - i,
    {
        i += 1;
    }
    i
}

/// Relates `before_newline`/`after_newline` of a suffix to the first newline
/// position found in it.
pub proof fn lemma_newline_split(s: Seq<char>, from: int, r: int)
    requires
        0 <= from <= r <= s.len(),
        r < s.len() ==> s[r] == '\n',
        forall|k: int| from <= k < r ==> s[k] != '\n',
    ensures
        before_newline(s.subrange(from, s.len() as int)) == s.subrange(from, r),
        after_newline(s.subrange(from, s.len() as int)) == if r < s.len() {
            Some(s.subrange(r + 1, s.len() as int))
        } else {
            None::<Seq<char>>
        },
    decreases r - from,
{
    let t = s.subrange(from, s.len() as int);
    if from == r {
        if r < s.len() {
            assert(t.drop_first() =~= s.subrange(r + 1, s.len() as int));
        }
        assert(s.subrange(from, r) =~= Seq::<char>::empty());
    } else {
        lemma_newline_split(s, from + 1, r);
        assert(t.drop_first() =~= s.subrange(from + 1, s.len() as int));
        assert(s.subrange(from, r) =~= seq![s[from]] + s.subrange(from + 1, r));
    }
}

/// The characters of `v`, as a `String`.
pub fn string_of(v: &Vec<char>) -> (r: String)
    ensures
        r@ == v@,
{
    let mut out = String::new();
    let mut i: usize = 0;
    while i < v.len()
        invariant
            i <= v.len(),
            out@ == v@.subrange(0, i as int),
        decreases v.len() - i,
    {
        push_char(&mut out, v[i]);
        assert(v@.subrange(0, i as int).push(v@[i as int]) =~= v@.subrange(0, i as int + 1));
        i += 1;
    }
    assert(v@.subrange(0, v.len() as int) =~= v@);
    out
}

/// Appends every character of `v` to `out`.
pub fn push_chars(out: &mut String, v: &Vec<char>)
    ensures
        final(out)@ == old(out)@ + v@,
{
    let mut i: usize = 0;
    while i < v.len()
        invariant
            i <= v.len(),
            out@ == old(out)@ + v@.subrange(0, i as int),
        decreases v.len() - i,
    {
        push_char(out, v[i]);
        assert(old(out)@ + v@.subrange(0, i as int).push(v@[i as int]) =~= old(out)@ + v@.subrange(0, i as int + 1));
        i += 1;
    }
    assert(v@.subrange(0, v.len() as int) =~= v@);
}

/// Appends every character of `s` to `out`.
pub fn push_str(out: &mut String, s: &str)
    ensures
        final(out)@ == old(out)@ + s@,
{
    let v = chars_of(s);
    push_chars(out, &v);
}

/// `str::lines`: the text split at each `'\n'`; a final line ending does
/// not start another line, and the empty text has no lines. (A `'\r'`
/// before the `'\n'` stays with the line here; every caller trims it away.)
pub open spec fn lines(s: Seq<char>) -> Seq<Seq<char>>
    decreases s.len(),
{
    if s.len() == 0 {
        Seq::empty()
    } else {
        match after_newline(s) {
            None => seq![before_newline(s)],
            Some(rest) => {
                proof {
                    lemma_after_newline_shorter(s);
                }
                seq![before_newline(s)] + lines(rest)
            },
        }
    }
}

pub proof fn lemma_after_newline_shorter(s: Seq<char>)
    ensures
        after_newline(s) matches Some(rest) ==> rest.len() < s.len(),
    decreases s.len(),
{
    if s.len() > 0 && s[0] != '\n' {
        lemma_after_newline_shorter(s.drop_first());
    }
}

/// Where the first line of `s` ends: `before_newline(s)` is `s[..k]`, free of
/// `'\n'`, and `after_newline(s)` is what follows a newline at `k`.
proof fn first_line_end(s: Seq<char>) -> (k: int)
    ensures
        0 <= k <= s.len(),
        before_newline(s) == s.subrange(0, k),
        forall|j: int| 0 <= j < k ==> s[j] != '\n',
        after_newline(s) == if k < s.len() {
            Some(s.subrange(k + 1, s.len() as int))
        } else {
            None::<Seq<char>>
        },
    decreases s.len(),
{
    if s.len() == 0 {
        0
    } else if s[0] == '\n' {
        assert(s.subrange(0, 0) =~= Seq::<char>::empty());
        assert(s.drop_first() =~= s.subrange(1, s.len() as int));
        0
    } else {
        let t = s.drop_first();
        let k = first_line_end(t);
        assert(seq![s[0]] + t.subrange(0, k) =~= s.subrange(0, k + 1));
        assert forall|j: int| 0 <= j < k + 1 implies s[j] != '\n' by {
            if j > 0 {
                assert(s[j] == t[j - 1]);
            }
        }
        if k < t.len() {
            assert(t.subrange(k + 1, t.len() as int) =~= s.subrange(k + 2, s.len() as int));
        }
        k + 1
    }
}

/// Every line of `s` is a piece of `s` holding no `'\n'`.
pub proof fn lemma_lines_pieces(s: Seq<char>)
    ensures
        forall|i: int|
            0 <= i < lines(s).len() ==> is_piece(#[trigger] lines(s)[i], s) && forall|j: int|
                0 <= j < lines(s)[i].len() ==> lines(s)[i][j] != '\n',
    decreases s.len(),
{
    if s.len() > 0 {
        let k = first_line_end(s);
        let first = s.subrange(0, k);
        assert(is_piece(first, s));
        if k < s.len() {
            let rest = s.subrange(k + 1, s.len() as int);
            lemma_after_newline_shorter(s);
            lemma_lines_pieces(rest);
            assert(lines(s) == seq![first] + lines(rest));
            assert(is_piece(rest, s));
            assert forall|i: int|
                0 <= i < lines(s).len() implies is_piece(#[trigger] lines(s)[i], s) && forall|j: int|
                    0 <= j < lines(s)[i].len() ==> lines(s)[i][j] != '\n' by {
                if i > 0 {
                    assert(lines(s)[i] == lines(rest)[i - 1]);
                    lemma_piece_trans(lines(rest)[i - 1], rest, s);
                }
            }
        } else {
            assert(lines(s) == seq![first]);
        }
    }
}

/// What `str::to_lowercase` makes of a text (full Unicode case mapping).
pub uninterp spec fn lowercase(s: Seq<char>) -> Seq<char>;

/// Whether every character of `s` is ASCII.
pub open spec fn all_ascii(s: Seq<char>) -> bool {
    forall|i: int| 0 <= i < s.len() ==> (#[trigger] s[i] as int) < 128
}

/// An ASCII capital letter as its small letter; any other character as
/// itself.
pub open spec fn ascii_lower_char(c: char) -> char {
    if is_ascii_upper(c) {
        ((c as int) + 32) as char
    } else {
        c
    }
}

/// `str::to_lowercase`. The contract claims that the result is the Unicode
/// lowercase mapping of the argument, a function of it alone; that no ASCII
/// capital letter survives lowercasing; and that on ASCII text only `A`-`Z`
/// change, each to its small letter. The rest of the Unicode mapping is not
/// restated.
#[verifier::external_body]
pub(crate) fn to_lowercase(s: &str) -> (r: String)
    ensures
        r@ == lowercase(s@),
        forall|i: int| 0 <= i < r@.len() ==> !is_ascii_upper(#[trigger] r@[i]),
        all_ascii(s@) ==> r@ == s@.map_values(|c: char| ascii_lower_char(c)),
{
    s.to_lowercase()
}

/// An ASCII capital letter.
pub open spec fn is_ascii_upper(c: char) -> bool {
    'A' <= c <= 'Z'
}

/// `char::is_ascii_alphanumeric`.
pub open spec fn is_ascii_alnum(c: char) -> bool {
    ('a' <= c <= 'z') || ('A' <= c <= 'Z') || ('0' <= c <= '9')
}

pub fn ascii_alnum(c: char) -> (r: bool)
    ensures
        r == is_ascii_alnum(c),
{
    ('a' <= c && c <= 'z') || ('A' <= c && c <= 'Z') || ('0' <= c && c <= '9')
}

/// The first `n` characters of `s`, or all of them when there are fewer
/// (`s.chars().take(n)`).
pub open spec fn take_at_most(s: Seq<char>, n: nat) -> Seq<char> {
    if s.len() <= n {
        s
    } else {
        s.take(n as int)
    }
}

/// `take_at_most` on a vector of characters.
pub fn take_chars(v: &Vec<char>, n: usize) -> (r: Vec<char>)
    ensures
        r@ == take_at_most(v@, n as nat),
{
    if v.len() <= n {
        let r = copy_range(v, 0, v.len());
        assert(v@.subrange(0, v.len() as int) =~= v@);
        r
    } else {
        copy_range(v, 0, n)
    }
}

/// Whether two character vectors are equal.
pub fn vec_eq(a: &Vec<char>, b: &Vec<char>) -> (r: bool)
    ensures
        r == (a@ == b@),
{
    if a.len() != b.len() {
        return false;
    }
    let mut i: usize = 0;
    while i < a.len()
        invariant
            i <= a.len() == b.len(),
            forall|k: int| 0 <= k < i ==> a@[k] == b@[k],
        decreases a.len() - i,
    {
        if a[i] != b[i] {
            return false;
        }
        i += 1;
    }
    assert(a@ =~= b@);
    true
}

} // verus!
