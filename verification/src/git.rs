//! Git-facing logic: branch-name slugs, `git status --porcelain` codes, and
//! the `.gitignore` entry check. Running `git` itself is the caller's job.

use vstd::prelude::*;
use vstd::multiset::Multiset;
use vstd::string::StringSliceAdditionalSpecFns;
use vstd::utf8::{decode_utf8, encode_utf8_decode_utf8, is_char_boundary};

use crate::text::{
    after_newline, all_ascii, ascii_lower_char, before_newline, ascii_alnum, lemma_trimmed_piece, chars_of, copy_range, find_newline, is_ascii_alnum, lemma_newline_split, lines,
    is_ascii_upper, lowercase, push_char, push_str, str_eq, string_of, take_at_most, take_chars, to_lowercase, trim_chars, trimmed, vec_eq,
};

verus! {

/// How a file changed relative to the worktree's HEAD.
#[derive(Debug, Clone, Copy, PartialEq, Eq, Structural)]
pub enum FileStatus {
    Added,
    Modified,
    Deleted,
}

/// One changed file in a worktree, carrying both sides so a diff can be
/// rendered without further git calls.
#[derive(Debug, Clone)]
pub struct FileDiff {
    pub path: String,
    pub status: FileStatus,
    /// File content at HEAD — empty for an added file.
    pub old_text: String,
    /// File content in the worktree — empty for a deleted file.
    pub new_text: String,
}

/// The most characters a slug keeps.
pub const SLUG_MAX: usize = 40;

/// Walks lowercased title characters, keeping ASCII alphanumerics and turning
/// each run of other characters between kept ones into a single `'-'`.
pub open spec fn slug_scan(s: Seq<char>, slug: Seq<char>, pending: bool) -> Seq<char>
    decreases s.len(),
{
    if s.len() == 0 {
        slug
    } else if is_ascii_alnum(s[0]) {
        let next = if pending {
            slug.push('-').push(s[0])
        } else {
            slug.push(s[0])
        };
        slug_scan(s.drop_first(), next, false)
    } else {
        slug_scan(s.drop_first(), slug, pending || slug.len() > 0)
    }
}

/// The slug of lowercased text: its scan, cut to `SLUG_MAX` characters, or
/// `"task"` when nothing is left.
pub open spec fn slug_from_lowered(lowered: Seq<char>) -> Seq<char> {
    let slug = take_at_most(slug_scan(lowered, Seq::empty(), false), SLUG_MAX as nat);
    if slug.len() == 0 {
        "task"@
    } else {
        slug
    }
}

/// The branch-name slug of a task title: the slug of the trimmed title,
/// lowercased.
pub open spec fn slug_of(title: Seq<char>) -> Seq<char> {
    slug_from_lowered(lowercase(trimmed(title)))
}

/// Converts a task title into a branch-name-safe slug (ASCII alphanumerics,
/// single dashes, at most 40 characters).
pub fn slugify(title: &str) -> (r: String)
    ensures
        r@ == slug_of(title@),
        forall|i: int| 0 <= i < r@.len() ==> is_slug_lower(#[trigger] r@[i]),
        all_ascii(title@) ==> r@ == slug_from_lowered(
            trimmed(title@).map_values(|c: char| ascii_lower_char(c)),
        ),
{
    let trimmed_title = string_of(&trim_chars(&chars_of(title)));
    let lowered = to_lowercase(trimmed_title.as_str());
    proof {
        if all_ascii(title@) {
            lemma_trimmed_piece(title@);
            let t = trimmed(title@);
            let (a, b) = choose|a: int, b: int|
                0 <= a <= b <= title@.len() && t == #[trigger] title@.subrange(a, b);
            assert forall|i: int| 0 <= i < t.len() implies (#[trigger] t[i] as int) < 128 by {
                assert(t[i] == title@[a + i]);
            }
        }
    }
    slug_of_lowered(lowered.as_str())
}

/// The slug of already-lowercased text; made only of lowercase ASCII
/// letters, digits and dashes when the text holds no ASCII capital.
pub fn slug_of_lowered(lowered: &str) -> (r: String)
    ensures
        r@ == slug_from_lowered(lowered@),
        (forall|i: int| 0 <= i < lowered@.len() ==> !is_ascii_upper(#[trigger] lowered@[i]))
            ==> forall|i: int| 0 <= i < r@.len() ==> is_slug_lower(#[trigger] r@[i]),
{
    let lower = chars_of(lowered);
    let mut slug: Vec<char> = Vec::new();
    let mut pending = false;
    let mut i: usize = 0;
    assert(lower@.skip(0) =~= lower@);
    while i < lower.len()
        invariant
            i <= lower.len(),
            slug_scan(lower@, Seq::empty(), false) == slug_scan(
                lower@.skip(i as int),
                slug@,
                pending,
            ),
        decreases lower.len() - i,
    {
        assert(lower@.skip(i as int).drop_first() =~= lower@.skip(i as int + 1));
        let ch = lower[i];
        if ascii_alnum(ch) {
            if pending {
                slug.push('-');
                pending = false;
            }
            slug.push(ch);
        } else if slug.len() > 0 {
            pending = true;
        }
        i += 1;
    }
    assert(lower@.skip(i as int) =~= Seq::<char>::empty());
    let cut = take_chars(&slug, SLUG_MAX);
    let r = if cut.len() == 0 {
        "task".to_string()
    } else {
        string_of(&cut)
    };
    proof {
        if forall|i: int| 0 <= i < lowered@.len() ==> !is_ascii_upper(#[trigger] lowered@[i]) {
            lemma_slug_lowercase(lowered@);
            assert forall|i: int| 0 <= i < r@.len() implies is_slug_lower(#[trigger] r@[i]) by {
                assert(r@[i] == slug_from_lowered(lowered@)[i]);
            }
        }
    }
    r
}

/// A lowercase ASCII letter, an ASCII digit, or a dash.
pub open spec fn is_slug_lower(c: char) -> bool {
    ('a' <= c <= 'z') || ('0' <= c <= '9') || c == '-'
}

proof fn lemma_slug_scan_lower(s: Seq<char>, slug: Seq<char>, pending: bool)
    requires
        forall|i: int| 0 <= i < s.len() ==> !is_ascii_upper(#[trigger] s[i]),
        forall|i: int| 0 <= i < slug.len() ==> is_slug_lower(#[trigger] slug[i]),
    ensures
        forall|i: int|
            0 <= i < slug_scan(s, slug, pending).len() ==> is_slug_lower(
                #[trigger] slug_scan(s, slug, pending)[i],
            ),
    decreases s.len(),
{
    if s.len() > 0 {
        assert(!is_ascii_upper(s[0]));
        let rest = s.drop_first();
        assert forall|i: int| 0 <= i < rest.len() implies !is_ascii_upper(#[trigger] rest[i]) by {
            assert(rest[i] == s[i + 1]);
        }
        if is_ascii_alnum(s[0]) {
            let next = if pending {
                slug.push('-').push(s[0])
            } else {
                slug.push(s[0])
            };
            assert forall|i: int| 0 <= i < next.len() implies is_slug_lower(#[trigger] next[i]) by {
                if i < slug.len() {
                    assert(next[i] == slug[i]);
                }
            }
            lemma_slug_scan_lower(rest, next, false);
            assert(slug_scan(s, slug, pending) == slug_scan(rest, next, false));
        } else {
            lemma_slug_scan_lower(rest, slug, pending || slug.len() > 0);
            assert(slug_scan(s, slug, pending) == slug_scan(rest, slug, pending || slug.len() > 0));
        }
    } else {
        assert(slug_scan(s, slug, pending) == slug);
    }
}

/// A slug holds only lowercase ASCII letters, digits and dashes, given that
/// the lowercased text holds no ASCII capital (as `to_lowercase`
/// guarantees).
pub proof fn lemma_slug_lowercase(lowered: Seq<char>)
    requires
        forall|i: int| 0 <= i < lowered.len() ==> !is_ascii_upper(#[trigger] lowered[i]),
    ensures
        forall|i: int|
            0 <= i < slug_from_lowered(lowered).len() ==> is_slug_lower(
                #[trigger] slug_from_lowered(lowered)[i],
            ),
{
    let scanned = slug_scan(lowered, Seq::empty(), false);
    lemma_slug_scan_lower(lowered, Seq::empty(), false);
    let cut = take_at_most(scanned, SLUG_MAX as nat);
    reveal_strlit("task");
    assert forall|i: int| 0 <= i < cut.len() implies is_slug_lower(#[trigger] cut[i]) by {
        assert(cut[i] == scanned[i]);
    }
    if cut.len() == 0 {
        assert forall|i: int| 0 <= i < "task"@.len() implies is_slug_lower(#[trigger] "task"@[i]) by {}
    }
}

/// A character a slug may hold.
pub open spec fn is_slug_char(c: char) -> bool {
    is_ascii_alnum(c) || c == '-'
}

/// ASCII alphanumerics and single dashes, not starting with a dash.
pub open spec fn slug_shaped(s: Seq<char>) -> bool {
    &&& forall|i: int| 0 <= i < s.len() ==> is_slug_char(#[trigger] s[i])
    &&& (s.len() > 0 ==> s[0] != '-')
    &&& forall|i: int|
        #![trigger s[i]]
        0 < i < s.len() && s[i] == '-' ==> s[i - 1] != '-'
}

proof fn lemma_slug_scan_shape(s: Seq<char>, slug: Seq<char>, pending: bool)
    requires
        slug_shaped(slug),
        slug.len() > 0 ==> slug.last() != '-',
        pending ==> slug.len() > 0,
    ensures
        slug_shaped(slug_scan(s, slug, pending)),
    decreases s.len(),
{
    if s.len() > 0 {
        if is_ascii_alnum(s[0]) {
            let next = if pending {
                slug.push('-').push(s[0])
            } else {
                slug.push(s[0])
            };
            assert forall|i: int| 0 < i < next.len() && #[trigger] next[i] == '-' implies next[i - 1] != '-' by {
                if i < slug.len() {
                    assert(next[i] == slug[i]);
                    assert(next[i - 1] == slug[i - 1]);
                } else if i == slug.len() {
                    assert(next[i - 1] == slug.last());
                }
            }
            assert forall|i: int| 0 <= i < next.len() implies is_slug_char(#[trigger] next[i]) by {
                if i < slug.len() {
                    assert(next[i] == slug[i]);
                }
            }
            if slug.len() > 0 {
                assert(next[0] == slug[0]);
            }
            lemma_slug_scan_shape(s.drop_first(), next, false);
        } else {
            lemma_slug_scan_shape(s.drop_first(), slug, pending || slug.len() > 0);
        }
    }
}

/// Every slug is non-empty, at most `SLUG_MAX` characters long, and made of
/// ASCII alphanumerics and single dashes, never starting with a dash.
pub proof fn lemma_slug_shape(title: Seq<char>)
    ensures
        0 < slug_of(title).len() <= SLUG_MAX,
        slug_shaped(slug_of(title)),
{
    let scanned = slug_scan(lowercase(trimmed(title)), Seq::empty(), false);
    lemma_slug_scan_shape(lowercase(trimmed(title)), Seq::empty(), false);
    let cut = take_at_most(scanned, SLUG_MAX as nat);
    assert forall|i: int| 0 <= i < cut.len() implies cut[i] == scanned[i] by {}
    reveal_strlit("task");
    if cut.len() > 0 {
        assert(cut[0] == scanned[0]);
        assert forall|i: int| 0 < i < cut.len() && #[trigger] cut[i] == '-' implies cut[i - 1] != '-' by {
            assert(cut[i] == scanned[i]);
            assert(cut[i - 1] == scanned[i - 1]);
        }
        assert forall|i: int| 0 <= i < cut.len() implies is_slug_char(#[trigger] cut[i]) by {
            assert(cut[i] == scanned[i]);
        }
    }
}

/// The maximal runs of ASCII alphanumerics in `s`, left to right, after the
/// runs `done` already finished and the run `cur` being read.
pub open spec fn runs_from(s: Seq<char>, cur: Seq<char>, done: Seq<Seq<char>>) -> Seq<Seq<char>>
    decreases s.len(),
{
    let closed = if cur.len() > 0 {
        done.push(cur)
    } else {
        done
    };
    if s.len() == 0 {
        closed
    } else if is_ascii_alnum(s[0]) {
        runs_from(s.drop_first(), cur.push(s[0]), done)
    } else {
        runs_from(s.drop_first(), Seq::empty(), closed)
    }
}

/// The maximal runs of ASCII alphanumerics in `s`, in order.
pub open spec fn alnum_runs(s: Seq<char>) -> Seq<Seq<char>> {
    runs_from(s, Seq::empty(), Seq::empty())
}

/// Texts joined by single dashes.
pub open spec fn dash_join(xs: Seq<Seq<char>>) -> Seq<char>
    decreases xs.len(),
{
    if xs.len() == 0 {
        Seq::empty()
    } else if xs.len() == 1 {
        xs[0]
    } else {
        dash_join(xs.drop_last()) + seq!['-'] + xs.last()
    }
}

proof fn lemma_dash_join_empty(xs: Seq<Seq<char>>)
    requires
        forall|k: int| 0 <= k < xs.len() ==> (#[trigger] xs[k]).len() > 0,
    ensures
        (dash_join(xs).len() == 0) == (xs.len() == 0),
{
    if xs.len() > 1 {
        assert(xs.last() == xs[xs.len() - 1]);
    } else if xs.len() == 1 {
        assert(xs[0].len() > 0);
    }
}

proof fn lemma_dash_join_push(xs: Seq<Seq<char>>, run: Seq<char>, c: char)
    ensures
        dash_join(xs.push(run.push(c))) == dash_join(xs.push(run)).push(c),
        xs.len() > 0 ==> dash_join(xs.push(seq![c])) == dash_join(xs).push('-').push(c),
{
    assert(xs.push(run.push(c)).drop_last() =~= xs);
    assert(xs.push(run).drop_last() =~= xs);
    assert(xs.push(seq![c]).drop_last() =~= xs);
    if xs.len() == 0 {
        assert(dash_join(xs.push(run.push(c))) == run.push(c));
        assert(dash_join(xs.push(run)) == run);
    } else {
        assert(dash_join(xs) + seq!['-'] + run.push(c) =~= (dash_join(xs) + seq!['-'] + run).push(c));
        assert(dash_join(xs) + seq!['-'] + seq![c] =~= dash_join(xs).push('-').push(c));
    }
}

/// The slug text built so far from finished runs `done` and the run `cur`.
pub open spec fn joined_so_far(done: Seq<Seq<char>>, cur: Seq<char>) -> Seq<char> {
    if cur.len() > 0 {
        dash_join(done.push(cur))
    } else {
        dash_join(done)
    }
}

proof fn lemma_scan_is_join(s: Seq<char>, cur: Seq<char>, done: Seq<Seq<char>>)
    requires
        forall|k: int| 0 <= k < done.len() ==> (#[trigger] done[k]).len() > 0,
    ensures
        slug_scan(s, joined_so_far(done, cur), cur.len() == 0 && done.len() > 0) == dash_join(
            runs_from(s, cur, done),
        ),
    decreases s.len(),
{
    let closed = if cur.len() > 0 {
        done.push(cur)
    } else {
        done
    };
    assert forall|k: int| 0 <= k < closed.len() implies (#[trigger] closed[k]).len() > 0 by {
        if k < done.len() {
            assert(closed[k] == done[k]);
        }
    }
    if s.len() == 0 {
    } else if is_ascii_alnum(s[0]) {
        let c = s[0];
        lemma_dash_join_push(done, cur, c);
        if cur.len() == 0 && done.len() == 0 {
            assert(cur.push(c) =~= seq![c]);
            assert(done.push(cur.push(c)) =~~= seq![seq![c]]);
            assert(dash_join(done) =~= Seq::<char>::empty());
            assert(Seq::<char>::empty().push(c) =~= seq![c]);
        } else if cur.len() == 0 {
            assert(cur.push(c) =~= seq![c]);
        }
        lemma_scan_is_join(s.drop_first(), cur.push(c), done);
    } else {
        lemma_dash_join_empty(closed);
        assert(joined_so_far(done, cur) == dash_join(closed));
        lemma_scan_is_join(s.drop_first(), Seq::empty(), closed);
        assert(joined_so_far(closed, Seq::empty()) == dash_join(closed));
    }
}

/// A slug is the runs of ASCII alphanumerics of the lowercased text joined
/// by single dashes and cut to `SLUG_MAX` characters, or `"task"` when the
/// text has no such run.
pub proof fn lemma_slug_runs(lowered: Seq<char>)
    ensures
        slug_from_lowered(lowered) == if alnum_runs(lowered).len() == 0 {
            "task"@
        } else {
            take_at_most(dash_join(alnum_runs(lowered)), SLUG_MAX as nat)
        },
{
    assert(joined_so_far(Seq::empty(), Seq::empty()) =~= Seq::<char>::empty());
    lemma_scan_is_join(lowered, Seq::empty(), Seq::empty());
    lemma_runs_nonempty(lowered, Seq::empty(), Seq::empty());
    lemma_dash_join_empty(alnum_runs(lowered));
}

proof fn lemma_runs_nonempty(s: Seq<char>, cur: Seq<char>, done: Seq<Seq<char>>)
    requires
        forall|k: int| 0 <= k < done.len() ==> (#[trigger] done[k]).len() > 0,
    ensures
        forall|k: int|
            0 <= k < runs_from(s, cur, done).len() ==> (#[trigger] runs_from(s, cur, done)[k]).len() > 0,
    decreases s.len(),
{
    let closed = if cur.len() > 0 {
        done.push(cur)
    } else {
        done
    };
    assert forall|k: int| 0 <= k < closed.len() implies (#[trigger] closed[k]).len() > 0 by {
        if k < done.len() {
            assert(closed[k] == done[k]);
        }
    }
    if s.len() > 0 {
        if is_ascii_alnum(s[0]) {
            lemma_runs_nonempty(s.drop_first(), cur.push(s[0]), done);
            assert(runs_from(s, cur, done) == runs_from(s.drop_first(), cur.push(s[0]), done));
        } else {
            lemma_runs_nonempty(s.drop_first(), Seq::empty(), closed);
            assert(runs_from(s, cur, done) == runs_from(s.drop_first(), Seq::empty(), closed));
        }
    } else {
        assert(runs_from(s, cur, done) == closed);
    }
}

/// The coarse status of a `git status --porcelain` two-letter code.
pub open spec fn status_of_code(code: Seq<char>) -> FileStatus {
    if code.contains('D') {
        FileStatus::Deleted
    } else if code == "??"@ || code.contains('A') {
        FileStatus::Added
    } else {
        FileStatus::Modified
    }
}

/// Whether `c` occurs in `v`.
pub fn contains_char(v: &Vec<char>, c: char) -> (r: bool)
    ensures
        r == v@.contains(c),
{
    let mut i: usize = 0;
    while i < v.len()
        invariant
            i <= v.len(),
            forall|k: int| 0 <= k < i ==> v@[k] != c,
        decreases v.len() - i,
    {
        if v[i] == c {
            assert(v@[i as int] == c);
            return true;
        }
        i += 1;
    }
    false
}

/// Maps a `git status --porcelain` two-letter code to a coarse status.
pub fn classify(code: &str) -> (r: FileStatus)
    ensures
        r == status_of_code(code@),
{
    let chars = chars_of(code);
    if contains_char(&chars, 'D') {
        FileStatus::Deleted
    } else if str_eq(code, "??") || contains_char(&chars, 'A') {
        FileStatus::Added
    } else {
        FileStatus::Modified
    }
}

/// Whether some line of `.gitignore` text, trimmed, is `entry`.
pub open spec fn lists_entry(existing: Seq<char>, entry: Seq<char>) -> bool {
    exists|i: int| 0 <= i < lines(existing).len() && trimmed(#[trigger] lines(existing)[i]) == entry
}

/// What `ensure_gitignored` appends to `.gitignore` text: nothing when the
/// entry is already listed, otherwise the entry on a line of its own.
pub open spec fn gitignore_addition_of(existing: Seq<char>, entry: Seq<char>) -> Option<Seq<char>> {
    if lists_entry(existing, entry) {
        None
    } else if existing.len() == 0 || existing.last() == '\n' {
        Some(entry.push('\n'))
    } else {
        Some(seq!['\n'] + entry.push('\n'))
    }
}

/// The text to append to a `.gitignore` holding `existing` so that it lists
/// `entry`, or `None` when it already does.
pub fn gitignore_addition(existing: &str, entry: &str) -> (r: Option<String>)
    ensures
        match r {
            Some(s) => gitignore_addition_of(existing@, entry@) == Some(s@),
            None => gitignore_addition_of(existing@, entry@) is None,
        },
{
    let text = chars_of(existing);
    let want = chars_of(entry);
    let n = text.len();
    let mut start: usize = 0;
    let ghost mut seen: Seq<Seq<char>> = Seq::empty();
    assert(text@.subrange(0, n as int) =~= text@);
    loop
        invariant_except_break
            lines(existing@) == seen + lines(text@.subrange(start as int, n as int)),
        invariant
            start <= n == text.len(),
            want@ == entry@,
            text@ == existing@,
            forall|k: int| 0 <= k < seen.len() ==> trimmed(#[trigger] seen[k]) != entry@,
        ensures
            lines(existing@) == seen,
        decreases n - start,
    {
        if start == n {
            assert(text@.subrange(start as int, n as int) =~= Seq::<char>::empty());
            assert(seen + Seq::<Seq<char>>::empty() =~= seen);
            break;
        }
        let stop = find_newline(&text, start);
        proof {
            lemma_newline_split(text@, start as int, stop as int);
        }
        let line = copy_range(&text, start, stop);
        let ghost sub = text@.subrange(start as int, n as int);
        assert(lines(sub) == if stop < n {
            seq![line@] + lines(text@.subrange(stop + 1, n as int))
        } else {
            seq![line@]
        });
        let t = trim_chars(&line);
        if vec_eq(&t, &want) {
            assert(lines(existing@)[seen.len() as int] == line@);
            return None;
        }
        proof {
            seen = seen.push(line@);
        }
        if stop == n {
            assert(lines(existing@) =~= seen);
            break;
        }
        assert(lines(existing@) =~= seen + lines(text@.subrange(stop + 1, n as int)));
        start = stop + 1;
    }
    assert forall|i: int| 0 <= i < lines(existing@).len() implies trimmed(
        #[trigger] lines(existing@)[i],
    ) != entry@ by {
        assert(lines(existing@)[i] == seen[i]);
    }
    assert(!lists_entry(existing@, entry@));
    let mut out = String::new();
    if n > 0 && text[n - 1] != '\n' {
        push_char(&mut out, '\n');
    }
    push_str(&mut out, entry);
    push_char(&mut out, '\n');
    proof {
        if !(n > 0 && text@[n - 1] != '\n') {
            assert(out@ =~= entry@.push('\n'));
        } else {
            assert(out@ =~= seq!['\n'] + entry@.push('\n'));
        }
    }
    Some(out)
}

/// The first `'\n'` at or after `from` in a text whose last character is one.
proof fn first_newline_from(s: Seq<char>, from: int) -> (k: int)
    requires
        0 <= from < s.len(),
        s.last() == '\n',
    ensures
        from <= k < s.len(),
        s[k] == '\n',
        forall|j: int| from <= j < k ==> s[j] != '\n',
    decreases s.len() - from,
{
    if s[from] == '\n' {
        from
    } else {
        first_newline_from(s, from + 1)
    }
}

/// The lines of `x + y`, where `x` is empty or ends its last line, are the
/// lines of `x` followed by those of `y`.
proof fn lemma_lines_append(x: Seq<char>, y: Seq<char>)
    requires
        x.len() == 0 || x.last() == '\n',
    ensures
        lines(x + y) == lines(x) + lines(y),
    decreases x.len(),
{
    if x.len() == 0 {
        assert(x + y =~= y);
        assert(lines(x) + lines(y) =~= lines(y));
    } else {
        let s = x + y;
        let k = first_newline_from(x, 0);
        lemma_newline_split(x, 0, k);
        lemma_newline_split(s, 0, k);
        assert(x.subrange(0, x.len() as int) =~= x);
        assert(s.subrange(0, s.len() as int) =~= s);
        let rest = x.subrange(k + 1, x.len() as int);
        assert(s.subrange(k + 1, s.len() as int) =~= rest + y);
        assert(s.subrange(0, k) =~= x.subrange(0, k));
        lemma_lines_append(rest, y);
        assert(lines(s) == seq![x.subrange(0, k)] + lines(rest + y));
        assert(lines(x) == seq![x.subrange(0, k)] + lines(rest));
        assert(lines(s) =~= lines(x) + lines(y));
    }
}

/// A line without a newline, followed by one, is a single line.
proof fn lemma_lines_single(e: Seq<char>)
    requires
        forall|j: int| 0 <= j < e.len() ==> e[j] != '\n',
    ensures
        lines(e.push('\n')) == seq![e],
{
    let s = e.push('\n');
    lemma_newline_split(s, 0, e.len() as int);
    assert(s.subrange(0, s.len() as int) =~= s);
    assert(s.subrange(0, e.len() as int) =~= e);
    assert(s.subrange(e.len() as int + 1, s.len() as int) =~= Seq::<char>::empty());
    assert(after_newline(s) == Some(Seq::<char>::empty()));
    assert(before_newline(s) == e);
    assert(lines(Seq::<char>::empty()) =~= Seq::<Seq<char>>::empty());
    assert(lines(s) =~= seq![e]);
}

/// `ensure_gitignored` is idempotent: once its addition is appended, the
/// entry is listed, so a second call appends nothing. This holds for an
/// entry that is a single line and has no surrounding whitespace.
pub proof fn lemma_gitignore_idempotent(existing: Seq<char>, entry: Seq<char>)
    requires
        trimmed(entry) == entry,
        forall|j: int| 0 <= j < entry.len() ==> entry[j] != '\n',
    ensures
        gitignore_addition_of(existing, entry) matches Some(added) ==> {
            &&& lists_entry(existing + added, entry)
            &&& gitignore_addition_of(existing + added, entry) is None
        },
{
    if let Some(added) = gitignore_addition_of(existing, entry) {
        lemma_lines_single(entry);
        let head = if existing.len() == 0 || existing.last() == '\n' {
            existing
        } else {
            existing.push('\n')
        };
        if existing.len() == 0 || existing.last() == '\n' {
            assert(existing + added =~= head + entry.push('\n'));
        } else {
            assert(existing + added =~= head + entry.push('\n'));
        }
        lemma_lines_append(head, entry.push('\n'));
        let all = lines(existing + added);
        let i = lines(head).len() as int;
        assert(all[i] == entry);
        assert(trimmed(all[i]) == entry);
        assert(lists_entry(existing + added, entry));
    }
}

/// Whether `" -> "` starts at `i` in `s`.
pub open spec fn arrow_at(s: Seq<char>, i: int) -> bool {
    &&& 0 <= i
    &&& i + 4 <= s.len()
    &&& s[i] == ' '
    &&& s[i + 1] == '-'
    &&& s[i + 2] == '>'
    &&& s[i + 3] == ' '
}

/// The start of the last `" -> "` in `s` at or before `j`.
pub open spec fn last_arrow_from(s: Seq<char>, j: int) -> Option<int>
    decreases j + 1,
{
    if j < 0 {
        None
    } else if arrow_at(s, j) {
        Some(j)
    } else {
        last_arrow_from(s, j - 1)
    }
}

/// `s.rsplit(" -> ").next()`: the text after the last `" -> "`, or all of
/// `s` when there is none. A rename `old -> new` names the new path.
pub open spec fn after_last_arrow(s: Seq<char>) -> Seq<char> {
    match last_arrow_from(s, s.len() - 4) {
        Some(i) => s.subrange(i + 4, s.len() as int),
        None => s,
    }
}

/// A line of `git status --porcelain` output: its coarse status and the path
/// it names, or `None` for a line shorter than four bytes. The code is the
/// first two bytes; the path is what follows the third, trimmed.
pub open spec fn status_line_of(bytes: Seq<u8>) -> Option<(FileStatus, Seq<char>)> {
    if bytes.len() < 4 {
        None
    } else {
        Some(
            (
                status_of_code(decode_utf8(bytes.subrange(0, 2))),
                after_last_arrow(trimmed(decode_utf8(bytes.subrange(3, bytes.len() as int)))),
            ),
        )
    }
}

/// Parses one line of `git status --porcelain` output into the file's status
/// and path.
pub fn parse_status_line(line: &str) -> (r: Option<(FileStatus, String)>)
    requires
        line.spec_bytes().len() >= 4 ==> is_char_boundary(line.spec_bytes(), 2)
            && is_char_boundary(line.spec_bytes(), 3),
    ensures
        match r {
            Some((status, path)) => status_line_of(line.spec_bytes()) == Some((status, path@)),
            None => status_line_of(line.spec_bytes()) is None,
        },
{
    if line.as_bytes().len() < 4 {
        return None;
    }
    let (code, _) = line.split_at(2);
    let (_, rest) = line.split_at(3);
    proof {
        encode_utf8_decode_utf8(code@);
        encode_utf8_decode_utf8(rest@);
    }
    let status = classify(code);
    let raw = trim_chars(&chars_of(rest));
    let n = raw.len();
    let mut j: usize = n;
    let mut found: Option<usize> = None;
    if n >= 4 {
        j = n - 4;
        loop
            invariant_except_break
                j + 4 <= n == raw.len(),
                found is None,
                last_arrow_from(raw@, n - 4) == last_arrow_from(raw@, j as int),
            ensures
                last_arrow_from(raw@, n - 4) == match found {
                    Some(i) => Some(i as int),
                    None => None::<int>,
                },
                found matches Some(i) ==> i + 4 <= n,
            decreases j,
        {
            if raw[j] == ' ' && raw[j + 1] == '-' && raw[j + 2] == '>' && raw[j + 3] == ' ' {
                found = Some(j);
                break;
            }
            if j == 0 {
                assert(last_arrow_from(raw@, -1) is None);
                break;
            }
            j -= 1;
        }
    } else {
        assert(last_arrow_from(raw@, n - 4) is None);
    }
    let path = match found {
        Some(i) => string_of(&copy_range(&raw, i + 4, n)),
        None => string_of(&raw),
    };
    Some((status, path))
}


/// `a` sorts no later than `b`: the lexicographic order of their characters,
/// which is the byte order of their UTF-8 text, the order of `String`.
pub open spec fn chars_le(a: Seq<char>, b: Seq<char>) -> bool
    decreases a.len(),
{
    if a.len() == 0 {
        true
    } else if b.len() == 0 {
        false
    } else if a[0] != b[0] {
        (a[0] as int) < (b[0] as int)
    } else {
        chars_le(a.drop_first(), b.drop_first())
    }
}

/// Any two texts are ordered one way or the other.
pub proof fn lemma_chars_le_total(a: Seq<char>, b: Seq<char>)
    ensures
        chars_le(a, b) || chars_le(b, a),
    decreases a.len(),
{
    if a.len() > 0 && b.len() > 0 && a[0] == b[0] {
        lemma_chars_le_total(a.drop_first(), b.drop_first());
    }
}

/// The order is transitive.
pub proof fn lemma_chars_le_trans(a: Seq<char>, b: Seq<char>, c: Seq<char>)
    requires
        chars_le(a, b),
        chars_le(b, c),
    ensures
        chars_le(a, c),
    decreases a.len(),
{
    if a.len() > 0 && b.len() > 0 && c.len() > 0 && a[0] == b[0] && b[0] == c[0] {
        lemma_chars_le_trans(a.drop_first(), b.drop_first(), c.drop_first());
    }
}

/// Whether `a` sorts no later than `b`.
pub fn path_le(a: &str, b: &str) -> (r: bool)
    ensures
        r == chars_le(a@, b@),
{
    let x = chars_of(a);
    let y = chars_of(b);
    let mut i: usize = 0;
    assert(x@.skip(0) =~= x@);
    assert(y@.skip(0) =~= y@);
    while i < x.len() && i < y.len() && x[i] == y[i]
        invariant
            i <= x.len(),
            i <= y.len(),
            x@ == a@,
            y@ == b@,
            chars_le(a@, b@) == chars_le(x@.skip(i as int), y@.skip(i as int)),
        decreases x.len() - i,
    {
        assert(x@.skip(i as int).drop_first() =~= x@.skip(i as int + 1));
        assert(y@.skip(i as int).drop_first() =~= y@.skip(i as int + 1));
        i += 1;
    }
    if i == x.len() {
        true
    } else if i == y.len() {
        false
    } else {
        assert(x@.skip(i as int)[0] == x@[i as int]);
        assert(y@.skip(i as int)[0] == y@[i as int]);
        x[i] < y[i]
    }
}

/// Whether the diffs are in order of their paths.
pub open spec fn sorted_by_path(v: Seq<FileDiff>) -> bool {
    forall|i: int, j: int| 0 <= i < j < v.len() ==> chars_le(#[trigger] v[i].path@, #[trigger] v[j].path@)
}

/// `x` placed into `s` after every diff, scanning back from the end, whose
/// path sorts no later than its own: one step of a stable insertion sort.
pub open spec fn insert_by_path(s: Seq<FileDiff>, x: FileDiff) -> Seq<FileDiff>
    decreases s.len(),
{
    if s.len() == 0 || chars_le(s.last().path@, x.path@) {
        s.push(x)
    } else {
        insert_by_path(s.drop_last(), x).push(s.last())
    }
}

/// The stable sort of diffs by path: each diff, in order, placed after those
/// already placed whose paths sort no later than its own.
pub open spec fn sorted_stably(s: Seq<FileDiff>) -> Seq<FileDiff>
    decreases s.len(),
{
    if s.len() == 0 {
        s
    } else {
        insert_by_path(sorted_stably(s.drop_last()), s.last())
    }
}

/// The diffs of `s` whose path is `path`, in order.
pub open spec fn with_path(s: Seq<FileDiff>, path: Seq<char>) -> Seq<FileDiff>
    decreases s.len(),
{
    if s.len() == 0 {
        Seq::empty()
    } else if s.last().path@ == path {
        with_path(s.drop_last(), path).push(s.last())
    } else {
        with_path(s.drop_last(), path)
    }
}

proof fn lemma_chars_le_refl(a: Seq<char>)
    ensures
        chars_le(a, a),
    decreases a.len(),
{
    if a.len() > 0 {
        lemma_chars_le_refl(a.drop_first());
    }
}

proof fn lemma_with_path_insert(s: Seq<FileDiff>, x: FileDiff, path: Seq<char>)
    ensures
        with_path(insert_by_path(s, x), path) == if x.path@ == path {
            with_path(s, path).push(x)
        } else {
            with_path(s, path)
        },
    decreases s.len(),
{
    let t = insert_by_path(s, x);
    if s.len() == 0 || chars_le(s.last().path@, x.path@) {
        assert(t.drop_last() =~= s);
    } else {
        lemma_with_path_insert(s.drop_last(), x, path);
        assert(t.drop_last() == insert_by_path(s.drop_last(), x));
        if s.last().path@ == path && x.path@ == path {
            lemma_chars_le_refl(path);
        }
    }
}

/// The sort is stable: the diffs with any one path come out in the order
/// they went in.
pub proof fn lemma_sort_stable(s: Seq<FileDiff>, path: Seq<char>)
    ensures
        with_path(sorted_stably(s), path) == with_path(s, path),
    decreases s.len(),
{
    if s.len() > 0 {
        lemma_sort_stable(s.drop_last(), path);
        lemma_with_path_insert(sorted_stably(s.drop_last()), s.last(), path);
    }
}

proof fn lemma_insert_at(s: Seq<FileDiff>, x: FileDiff, j: int)
    requires
        0 <= j <= s.len(),
        j == 0 || chars_le(s[j - 1].path@, x.path@),
        forall|k: int| j <= k < s.len() ==> !chars_le(#[trigger] s[k].path@, x.path@),
    ensures
        insert_by_path(s, x) == s.insert(j, x),
    decreases s.len(),
{
    if s.len() == j {
        assert(s.insert(j, x) =~= s.push(x));
    } else {
        assert(!chars_le(s[s.len() - 1].path@, x.path@));
        let d = s.drop_last();
        assert forall|k: int| j <= k < d.len() implies !chars_le(#[trigger] d[k].path@, x.path@) by {
            assert(d[k] == s[k]);
        }
        if j > 0 {
            assert(d[j - 1] == s[j - 1]);
        }
        lemma_insert_at(d, x, j);
        assert(d.insert(j, x).push(s.last()) =~= s.insert(j, x));
    }
}

/// The diffs in order of their paths, as `worktree_diff` reports them; diffs
/// with the same path keep their order (a stable sort).
pub fn sort_by_path(diffs: Vec<FileDiff>) -> (r: Vec<FileDiff>)
    ensures
        r@ == sorted_stably(diffs@),
        sorted_by_path(r@),
        r@.to_multiset() == diffs@.to_multiset(),
        forall|path: Seq<char>| #[trigger] with_path(r@, path) == with_path(diffs@, path),
{
    broadcast use vstd::multiset::group_multiset_axioms;
    broadcast use vstd::seq_lib::group_to_multiset_ensures;

    let ghost given = diffs@;
    let ghost mut done: int = 0;
    let mut rest = diffs;
    let mut out: Vec<FileDiff> = Vec::new();
    assert(out@ =~= Seq::<FileDiff>::empty());
    assert(out@.to_multiset() =~= Multiset::empty());
    assert(out@.to_multiset().add(rest@.to_multiset()) =~= given.to_multiset());
    assert(given.take(0) =~= Seq::<FileDiff>::empty());
    assert(given.skip(0) =~= given);
    while rest.len() > 0
        invariant
            0 <= done <= given.len(),
            rest@ == given.skip(done),
            out@ == sorted_stably(given.take(done)),
            sorted_by_path(out@),
            out@.to_multiset().add(rest@.to_multiset()) == given.to_multiset(),
        decreases rest.len(),
    {
        let ghost before = rest@;
        let x = rest.remove(0);
        proof {
            vstd::seq_lib::to_multiset_remove(before, 0);
            before.to_multiset_ensures();
            assert(x == given[done]);
            assert(rest@ =~= given.skip(done + 1));
        }
        let mut j = out.len();
        while j > 0 && !path_le(out[j - 1].path.as_str(), x.path.as_str())
            invariant
                j <= out.len(),
                forall|k: int| j <= k < out.len() ==> chars_le(x.path@, #[trigger] out@[k].path@),
                forall|k: int| j <= k < out.len() ==> !chars_le(#[trigger] out@[k].path@, x.path@),
            decreases j,
        {
            proof {
                lemma_chars_le_total(out@[j - 1].path@, x.path@);
            }
            j -= 1;
        }
        let ghost prev = out@;
        proof {
            assert forall|k: int| 0 <= k < j implies chars_le(#[trigger] prev[k].path@, x.path@) by {
                if k < j - 1 {
                    lemma_chars_le_trans(prev[k].path@, prev[j - 1].path@, x.path@);
                }
            }
            lemma_insert_at(prev, x, j as int);
            assert(given.take(done + 1).drop_last() =~= given.take(done));
            assert(given.take(done + 1).last() == x);
        }
        out.insert(j, x);
        proof {
            vstd::seq_lib::to_multiset_insert(prev, j as int, x);
            let now = out@;
            assert forall|a: int, b: int| 0 <= a < b < now.len() implies chars_le(
                #[trigger] now[a].path@,
                #[trigger] now[b].path@,
            ) by {
                if b < j {
                    assert(now[a] == prev[a] && now[b] == prev[b]);
                } else if b == j {
                    assert(now[a] == prev[a]);
                } else if a < j {
                    assert(now[a] == prev[a] && now[b] == prev[b - 1]);
                    lemma_chars_le_trans(prev[a].path@, x.path@, prev[b - 1].path@);
                } else if a == j {
                    assert(now[b] == prev[b - 1]);
                } else {
                    assert(now[a] == prev[a - 1] && now[b] == prev[b - 1]);
                }
            }
            assert(out@.to_multiset().add(rest@.to_multiset()) =~= given.to_multiset());
            done = done + 1;
        }
    }
    proof {
        assert(rest@ =~= Seq::<FileDiff>::empty());
        assert(rest@.to_multiset() =~= Multiset::empty());
        assert(out@.to_multiset() =~= given.to_multiset());
        assert(done == given.len());
        assert(given.take(done) =~= given);
        assert forall|path: Seq<char>| #[trigger] with_path(out@, path) == with_path(given, path) by {
            lemma_sort_stable(given, path);
        }
    }
    out
}

/// The commit message of a checkpoint labelled `label`.
pub open spec fn checkpoint_message_of(label: Seq<char>) -> Seq<char> {
    "viban checkpoint: "@ + label
}

/// The commit message a checkpoint is saved under.
pub fn checkpoint_message(label: &str) -> (r: String)
    ensures
        r@ == checkpoint_message_of(label@),
{
    let mut message = "viban checkpoint: ".to_string();
    push_str(&mut message, label);
    message
}

/// The diff record of a changed file, given its text at HEAD and in the
/// worktree: an added file has no old text, a deleted file no new text, and
/// both sides are normalized to LF line endings.
pub fn file_diff_of(path: String, status: FileStatus, head_text: &str, work_text: &str) -> (r: FileDiff)
    ensures
        r.path == path,
        r.status == status,
        r.old_text@ == if status == FileStatus::Added {
            Seq::empty()
        } else {
            lf_normalized(head_text@)
        },
        r.new_text@ == if status == FileStatus::Deleted {
            Seq::empty()
        } else {
            lf_normalized(work_text@)
        },
{
    let old_text = if status == FileStatus::Added {
        String::new()
    } else {
        normalize_newlines(head_text)
    };
    let new_text = if status == FileStatus::Deleted {
        String::new()
    } else {
        normalize_newlines(work_text)
    };
    FileDiff { path, status, old_text, new_text }
}

/// `str::replace("\r\n", "\n")`: every CRLF line ending becomes LF.
pub open spec fn lf_normalized(s: Seq<char>) -> Seq<char>
    decreases s.len(),
{
    if s.len() == 0 {
        s
    } else if s.len() >= 2 && s[0] == '\r' && s[1] == '\n' {
        seq!['\n'] + lf_normalized(s.skip(2))
    } else {
        seq![s[0]] + lf_normalized(s.drop_first())
    }
}

/// Normalizes a file's text to LF line endings, so a repository's autocrlf
/// setting does not turn every line into a spurious diff.
pub fn normalize_newlines(text: &str) -> (r: String)
    ensures
        r@ == lf_normalized(text@),
{
    let chars = chars_of(text);
    let n = chars.len();
    let mut out: Vec<char> = Vec::new();
    let mut i: usize = 0;
    assert(chars@.skip(0) =~= chars@);
    while i < n
        invariant
            i <= n == chars.len(),
            lf_normalized(chars@) == out@ + lf_normalized(chars@.skip(i as int)),
        decreases n - i,
    {
        let ghost rest = chars@.skip(i as int);
        if i + 1 < n && chars[i] == '\r' && chars[i + 1] == '\n' {
            assert(rest.skip(2) =~= chars@.skip(i as int + 2));
            out.push('\n');
            assert(out@ + lf_normalized(chars@.skip(i as int + 2)) =~= out@.drop_last() + (seq!['\n']
                + lf_normalized(rest.skip(2))));
            i += 2;
        } else {
            assert(rest.drop_first() =~= chars@.skip(i as int + 1));
            out.push(chars[i]);
            assert(out@ + lf_normalized(chars@.skip(i as int + 1)) =~= out@.drop_last() + (seq![
                rest[0],
            ] + lf_normalized(rest.drop_first())));
            i += 1;
        }
    }
    assert(chars@.skip(n as int) =~= Seq::<char>::empty());
    assert(out@ + Seq::<char>::empty() =~= out@);
    string_of(&out)
}

/// The text with every carriage return removed.
pub open spec fn without_cr(s: Seq<char>) -> Seq<char>
    decreases s.len(),
{
    if s.len() == 0 {
        s
    } else if s[0] == '\r' {
        without_cr(s.drop_first())
    } else {
        seq![s[0]] + without_cr(s.drop_first())
    }
}

/// How many times a carriage return is immediately followed by a line feed.
pub open spec fn crlf_pairs(s: Seq<char>) -> nat
    decreases s.len(),
{
    if s.len() < 2 {
        0
    } else {
        (if s[0] == '\r' && s[1] == '\n' {
            1nat
        } else {
            0nat
        }) + crlf_pairs(s.drop_first())
    }
}

/// Normalizing line endings only removes carriage returns, one for each
/// carriage return that immediately precedes a line feed: with carriage
/// returns dropped the result and the input agree (every line feed and every
/// other character is kept, in order), and a text without carriage returns
/// comes back unchanged.
pub proof fn lemma_lf_normalized_removes_only_crlf_cr(s: Seq<char>)
    ensures
        without_cr(lf_normalized(s)) == without_cr(s),
        lf_normalized(s).len() + crlf_pairs(s) == s.len(),
        (forall|i: int| 0 <= i < s.len() ==> s[i] != '\r') ==> lf_normalized(s) == s,
    decreases s.len(),
{
    if s.len() == 0 {
    } else if s.len() >= 2 && s[0] == '\r' && s[1] == '\n' {
        let rest = s.skip(2);
        let t = s.drop_first();
        assert(t.drop_first() =~= rest);
        lemma_lf_normalized_removes_only_crlf_cr(rest);
        let out = lf_normalized(s);
        assert(out == seq!['\n'] + lf_normalized(rest));
        assert(out.drop_first() =~= lf_normalized(rest));
        assert(without_cr(out) == seq!['\n'] + without_cr(lf_normalized(rest)));
        assert(without_cr(t) == seq!['\n'] + without_cr(rest));
        if t.len() >= 2 {
            assert(crlf_pairs(t) == crlf_pairs(rest));
        } else {
            assert(rest.len() == 0);
        }
    } else {
        let t = s.drop_first();
        lemma_lf_normalized_removes_only_crlf_cr(t);
        let out = lf_normalized(s);
        assert(out == seq![s[0]] + lf_normalized(t));
        assert(out.drop_first() =~= lf_normalized(t));
        assert(out[0] == s[0]);
        if forall|i: int| 0 <= i < s.len() ==> s[i] != '\r' {
            assert forall|i: int| 0 <= i < t.len() implies t[i] != '\r' by {
                assert(t[i] == s[i + 1]);
            }
            assert(out =~= s);
        }
    }
}

} // verus!
