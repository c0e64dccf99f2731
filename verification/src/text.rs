//! Text reflow for dialogue passages.
//!
//! Passage text arrives as free prose: authors indent lines and break
//! them wherever the source file is comfortable to edit. Reflow
//! normalizes that prose: every physical line is trimmed, lines within a
//! paragraph are joined by single spaces, and a blank line separates
//! paragraphs.
//!
//! Trimming removes ASCII whitespace (space, tab, carriage return, line
//! feed, vertical tab, form feed). Lines are split at `'\n'`; a carriage
//! return before the break is whitespace and is trimmed with the rest.

use vstd::prelude::*;

verus! {

/// ASCII whitespace, the characters that trimming removes from the ends
/// of a physical line.
pub open spec fn is_space(c: char) -> bool {
    c == ' ' || c == '\t' || c == '\r' || c == '\n' || c == '\u{b}' || c == '\u{c}'
}

/// Exec test for [`is_space`].
fn is_space_char(c: char) -> (r: bool)
    ensures
        r == is_space(c),
{
    c == ' ' || c == '\t' || c == '\r' || c == '\n' || c == '\u{b}' || c == '\u{c}'
}

/// The length of the first line of `s`: the index of the first `'\n'`,
/// or the length of `s` if it has none.
pub open spec fn line_break(s: Seq<char>) -> nat
    decreases s.len(),
{
    if s.len() == 0 {
        0
    } else if s[0] == '\n' {
        0
    } else {
        1 + line_break(s.drop_first())
    }
}

/// The physical lines of `s`: split at each `'\n'`; a trailing line
/// break ends the last line rather than opening an empty one.
pub open spec fn split_lines(s: Seq<char>) -> Seq<Seq<char>>
    decreases s.len(),
{
    if s.len() == 0 {
        Seq::empty()
    } else {
        let j = line_break(s);
        if j < s.len() {
            seq![s.subrange(0, j as int)] + split_lines(s.subrange(j as int + 1, s.len() as int))
        } else {
            seq![s]
        }
    }
}

/// `l` with its leading whitespace removed.
pub open spec fn trim_front(l: Seq<char>) -> Seq<char>
    decreases l.len(),
{
    if l.len() > 0 && is_space(l[0]) {
        trim_front(l.drop_first())
    } else {
        l
    }
}

/// `l` with its trailing whitespace removed.
pub open spec fn trim_back(l: Seq<char>) -> Seq<char>
    decreases l.len(),
{
    if l.len() > 0 && is_space(l.last()) {
        trim_back(l.drop_last())
    } else {
        l
    }
}

/// `l` with whitespace removed from both ends.
pub open spec fn spec_trim(l: Seq<char>) -> Seq<char> {
    trim_back(trim_front(l))
}

/// The reflowed form of the lines `ls`: each trimmed line except the
/// last is followed by a single space, or by a single line break when
/// the line trimmed to nothing (a paragraph separator); nothing
/// follows the last line, so already-normalized text stays as it is.
pub open spec fn spec_reflow_lines(ls: Seq<Seq<char>>) -> Seq<char>
    decreases ls.len(),
{
    if ls.len() == 0 {
        Seq::empty()
    } else {
        let t = spec_trim(ls[0]);
        if ls.len() == 1 {
            t
        } else {
            t + (if t.len() == 0 {
                seq!['\n']
            } else {
                seq![' ']
            }) + spec_reflow_lines(ls.drop_first())
        }
    }
}

/// The reflowed form of `s`; see [`reflow_text`].
pub open spec fn spec_reflow(s: Seq<char>) -> Seq<char> {
    spec_reflow_lines(split_lines(s))
}

/// The trimmed nonempty lines of `ls` joined with single spaces;
/// `started` records whether a previous line already contributed text,
/// so that a space is owed before the next line.
pub open spec fn spec_join_rest(ls: Seq<Seq<char>>, started: bool) -> Seq<char>
    decreases ls.len(),
{
    if ls.len() == 0 {
        Seq::empty()
    } else {
        let t = spec_trim(ls[0]);
        if t.len() == 0 {
            spec_join_rest(ls.drop_first(), started)
        } else {
            (if started {
                seq![' ']
            } else {
                Seq::<char>::empty()
            }) + t + spec_join_rest(ls.drop_first(), true)
        }
    }
}

/// The single-passage reformat of `s`; see [`reformat_passage`].
pub open spec fn spec_reformat(s: Seq<char>) -> Seq<char> {
    spec_join_rest(split_lines(s), false)
}

/// The blank-line-delimited blocks of the lines `ls`, each block the
/// join of its trimmed lines with single spaces; `cur` is the block
/// under construction.
pub open spec fn spec_blocks_rest(ls: Seq<Seq<char>>, cur: Seq<char>) -> Seq<Seq<char>>
    decreases ls.len(),
{
    if ls.len() == 0 {
        if cur.len() == 0 {
            Seq::empty()
        } else {
            seq![cur]
        }
    } else {
        let t = spec_trim(ls[0]);
        if t.len() == 0 {
            if cur.len() == 0 {
                spec_blocks_rest(ls.drop_first(), cur)
            } else {
                seq![cur] + spec_blocks_rest(ls.drop_first(), Seq::empty())
            }
        } else {
            spec_blocks_rest(
                ls.drop_first(),
                if cur.len() == 0 {
                    t
                } else {
                    cur + seq![' '] + t
                },
            )
        }
    }
}

/// The passages of `s`; see [`split_passages`].
pub open spec fn spec_passages(s: Seq<char>) -> Seq<Seq<char>> {
    spec_blocks_rest(split_lines(s), Seq::empty())
}

/// A passage in normal form: nonempty, on one line, starting and
/// ending with non-whitespace. Reformatting keeps such text unchanged;
/// parsing leaves every passage in this form.
pub open spec fn is_normalized(s: Seq<char>) -> bool {
    &&& s.len() > 0
    &&& (forall|i: int| 0 <= i < s.len() ==> s[i] != '\n')
    &&& !is_space(s[0])
    &&& !is_space(s[s.len() - 1])
}

/// `line_break` finds a line: it stays within the string and nothing
/// before it is a line break.
proof fn lemma_line_break_props(s: Seq<char>)
    ensures
        line_break(s) <= s.len(),
        forall|m: int| 0 <= m < line_break(s) ==> s[m] != '\n',
    decreases s.len(),
{
    if s.len() > 0 && s[0] != '\n' {
        lemma_line_break_props(s.drop_first());
        assert forall|m: int| 0 <= m < line_break(s) implies s[m] != '\n' by {
            if m > 0 {
                assert(s[m] == s.drop_first()[m - 1]);
            }
        }
    }
}

/// No line of `split_lines` contains a line break.
proof fn lemma_split_lines_no_break(s: Seq<char>)
    ensures
        forall|i: int, m: int|
            #![auto]
            0 <= i < split_lines(s).len() && 0 <= m < split_lines(s)[i].len()
                ==> split_lines(s)[i][m] != '\n',
    decreases s.len(),
{
    if s.len() > 0 {
        lemma_line_break_props(s);
        let j = line_break(s) as int;
        let ls = split_lines(s);
        if j < s.len() {
            let suffix = s.subrange(j + 1, s.len() as int);
            lemma_split_lines_no_break(suffix);
            assert(ls == seq![s.subrange(0, j)] + split_lines(suffix));
            assert forall|i: int, m: int|
                0 <= i < ls.len() && 0 <= m < ls[i].len() implies #[trigger] ls[i][m]
                != '\n' by {
                if i == 0 {
                    assert(ls[i] == s.subrange(0, j));
                    assert(ls[i][m] == s[m]);
                } else {
                    assert(ls[i] == split_lines(suffix)[i - 1]);
                }
            }
        } else {
            assert(ls == seq![s]);
        }
    }
}

/// `trim_front` leaves a suffix: every character of the result stands
/// in the line, and its first character is not whitespace.
proof fn lemma_trim_front_props(l: Seq<char>)
    ensures
        trim_front(l).len() <= l.len(),
        forall|m: int|
            #![auto]
            0 <= m < trim_front(l).len() ==> l.contains(trim_front(l)[m]),
        trim_front(l).len() > 0 ==> !is_space(trim_front(l)[0]),
    decreases l.len(),
{
    if l.len() > 0 && is_space(l[0]) {
        lemma_trim_front_props(l.drop_first());
        assert(forall|m: int|
            #![auto]
            0 <= m < l.drop_first().len() ==> l.contains(l.drop_first()[m]));
    }
}

/// `trim_back` leaves a prefix: the first character stays put, every
/// character of the result stands in the line, and its last character
/// is not whitespace.
proof fn lemma_trim_back_props(l: Seq<char>)
    ensures
        trim_back(l).len() <= l.len(),
        forall|m: int| 0 <= m < trim_back(l).len() ==> trim_back(l)[m] == l[m],
        trim_back(l).len() > 0 ==> !is_space(trim_back(l).last()),
    decreases l.len(),
{
    if l.len() > 0 && is_space(l.last()) {
        let rest = l.drop_last();
        lemma_trim_back_props(rest);
        assert(forall|m: int| 0 <= m < rest.len() ==> rest[m] == l[m]);
    }
}

/// A nonempty trimmed line is normalized, provided the line had no
/// line break in it.
proof fn lemma_trim_normalized(l: Seq<char>)
    requires
        forall|m: int| 0 <= m < l.len() ==> l[m] != '\n',
        spec_trim(l).len() > 0,
    ensures
        is_normalized(spec_trim(l)),
{
    let f = trim_front(l);
    let t = spec_trim(l);
    lemma_trim_front_props(l);
    lemma_trim_back_props(f);
    assert forall|m: int| 0 <= m < t.len() implies #[trigger] t[m] != '\n' by {
        assert(t[m] == f[m]);
        assert(l.contains(f[m]));
    }
    assert(t[0] == f[0]);
}

/// Every block that `spec_blocks_rest` yields is normalized, given
/// break-free lines and a normalized (or empty) block under
/// construction.
proof fn lemma_blocks_normalized(ls: Seq<Seq<char>>, cur: Seq<char>)
    requires
        forall|i: int, m: int|
            #![auto]
            0 <= i < ls.len() && 0 <= m < ls[i].len() ==> ls[i][m] != '\n',
        cur.len() > 0 ==> is_normalized(cur),
    ensures
        forall|i: int|
            #![auto]
            0 <= i < spec_blocks_rest(ls, cur).len() ==> is_normalized(spec_blocks_rest(ls, cur)[i]),
    decreases ls.len(),
{
    let result = spec_blocks_rest(ls, cur);
    if ls.len() == 0 {
        if cur.len() > 0 {
            assert(result == seq![cur]);
            assert(result[0] == cur);
        }
    } else {
        let t = spec_trim(ls[0]);
        let rest = ls.drop_first();
        assert(forall|i: int, m: int|
            #![auto]
            0 <= i < rest.len() && 0 <= m < rest[i].len() ==> rest[i][m] != '\n');
        if t.len() == 0 {
            if cur.len() == 0 {
                lemma_blocks_normalized(rest, cur);
                assert(result == spec_blocks_rest(rest, cur));
                assert forall|i: int| 0 <= i < result.len() implies is_normalized(
                    #[trigger] result[i],
                ) by {
                    assert(result[i] == spec_blocks_rest(rest, cur)[i]);
                }
            } else {
                lemma_blocks_normalized(rest, Seq::empty());
                assert(result == seq![cur] + spec_blocks_rest(rest, Seq::empty()));
                assert forall|i: int| 0 <= i < result.len() implies is_normalized(
                    #[trigger] result[i],
                ) by {
                    if i == 0 {
                        assert(result[0] == cur);
                    } else {
                        assert(result[i] == spec_blocks_rest(rest, Seq::empty())[i - 1]);
                    }
                }
            }
        } else {
            lemma_trim_normalized(ls[0]);
            let grown = if cur.len() == 0 {
                t
            } else {
                cur + seq![' '] + t
            };
            if cur.len() > 0 {
                assert forall|m: int| 0 <= m < grown.len() implies #[trigger] grown[m]
                    != '\n' by {
                    if m < cur.len() {
                        assert(grown[m] == cur[m]);
                    } else if m == cur.len() {
                        assert(grown[m] == ' ');
                    } else {
                        assert(grown[m] == t[m - cur.len() - 1]);
                    }
                }
                assert(grown[0] == cur[0]);
                assert(grown.last() == t.last());
            }
            assert(is_normalized(grown));
            lemma_blocks_normalized(rest, grown);
            assert(result == spec_blocks_rest(rest, grown));
            assert forall|i: int| 0 <= i < result.len() implies is_normalized(
                #[trigger] result[i],
            ) by {
                assert(result[i] == spec_blocks_rest(rest, grown)[i]);
            }
        }
    }
}

/// Reformatting keeps normalized text exactly as it is.
pub proof fn lemma_reformat_normalized(s: Seq<char>)
    requires
        is_normalized(s),
    ensures
        spec_reformat(s) == s,
{
    lemma_line_break_at(s, s.len() as int);
    assert(split_lines(s) == seq![s]);
    lemma_trim_front_skip(s, 0);
    assert(s.skip(0) =~= s);
    lemma_trim_back_take(s, s.len() as int);
    assert(s.take(s.len() as int) =~= s);
    assert(spec_trim(s) == s);
    let ls = seq![s];
    assert(ls.drop_first() =~= Seq::<Seq<char>>::empty());
    assert(spec_join_rest(ls.drop_first(), true) == Seq::<char>::empty());
    assert(Seq::<char>::empty() + s + Seq::<char>::empty() =~= s);
}

/// Every passage that splitting yields is normalized: nonempty, on one
/// line, and without whitespace at either end; reformatting it again
/// changes nothing.
pub proof fn lemma_passages_normalized(s: Seq<char>)
    ensures
        forall|i: int|
            #![auto]
            0 <= i < spec_passages(s).len() ==> is_normalized(spec_passages(s)[i])
                && spec_reformat(spec_passages(s)[i]) == spec_passages(s)[i],
{
    lemma_split_lines_no_break(s);
    lemma_blocks_normalized(split_lines(s), Seq::empty());
    assert forall|i: int| #![auto] 0 <= i < spec_passages(s).len() implies is_normalized(
        spec_passages(s)[i],
    ) && spec_reformat(spec_passages(s)[i]) == spec_passages(s)[i] by {
        lemma_reformat_normalized(spec_passages(s)[i]);
    }
}

/// A scan that stops at the first `'\n'` (or the end) finds exactly
/// `line_break`.
proof fn lemma_line_break_at(s: Seq<char>, j: int)
    requires
        0 <= j <= s.len(),
        forall|m: int| 0 <= m < j ==> s[m] != '\n',
        j < s.len() ==> s[j] == '\n',
    ensures
        line_break(s) == j,
    decreases s.len(),
{
    if s.len() == 0 || s[0] == '\n' {
    } else {
        let rest = s.drop_first();
        assert(forall|m: int| 0 <= m < j - 1 ==> rest[m] == s[m + 1] && s[m + 1] != '\n');
        lemma_line_break_at(rest, j - 1);
    }
}

/// Removing `k` leading whitespace characters, down to a character that
/// is not whitespace (or the end), is exactly `trim_front`.
proof fn lemma_trim_front_skip(l: Seq<char>, k: int)
    requires
        0 <= k <= l.len(),
        forall|m: int| 0 <= m < k ==> is_space(l[m]),
        k < l.len() ==> !is_space(l[k]),
    ensures
        trim_front(l) == l.skip(k),
    decreases k,
{
    if k == 0 {
        assert(l.skip(0) =~= l);
    } else {
        let rest = l.drop_first();
        assert(forall|m: int| 0 <= m < k - 1 ==> rest[m] == l[m + 1] && is_space(l[m + 1]));
        lemma_trim_front_skip(rest, k - 1);
        assert(rest.skip(k - 1) =~= l.skip(k));
    }
}

/// Removing the trailing whitespace after position `k`, where position
/// `k - 1` is not whitespace (or the line starts there), is exactly
/// `trim_back`.
proof fn lemma_trim_back_take(l: Seq<char>, k: int)
    requires
        0 <= k <= l.len(),
        forall|m: int| k <= m < l.len() ==> is_space(l[m]),
        k > 0 ==> !is_space(l[k - 1]),
    ensures
        trim_back(l) == l.take(k),
    decreases l.len(),
{
    if k == l.len() {
        assert(l.take(k) =~= l);
    } else {
        assert(is_space(l[l.len() - 1]));
        let rest = l.drop_last();
        assert(forall|m: int| k <= m < rest.len() ==> rest[m] == l[m] && is_space(l[m]));
        if k > 0 {
            assert(rest[k - 1] == l[k - 1]);
        }
        lemma_trim_back_take(rest, k);
        assert(rest.take(k) =~= l.take(k));
    }
}

/// Scan the string from `i` for the end of the current line: the index
/// of the next `'\n'`, or the end of the string.
fn find_line_end(s: &str, i: usize, n: usize) -> (j: usize)
    requires
        n == s@.len(),
        i <= n,
    ensures
        i <= j <= n,
        forall|m: int| i <= m < j ==> s@[m] != '\n',
        j < n ==> s@[j as int] == '\n',
{
    let mut j: usize = i;
    while j < n && s.get_char(j) != '\n'
        invariant
            i <= j <= n,
            n == s@.len(),
            forall|m: int| i <= m < j ==> s@[m] != '\n',
        decreases n - j,
    {
        j = j + 1;
    }
    j
}

/// Trim the line `[i, j)` of `s`: returns the subrange `[a, b)` left
/// after removing whitespace from both ends.
fn trim_range(s: &str, i: usize, j: usize) -> (r: (usize, usize))
    requires
        i <= j <= s@.len(),
    ensures
        i <= r.0 <= r.1 <= j,
        spec_trim(s@.subrange(i as int, j as int)) == s@.subrange(r.0 as int, r.1 as int),
{
    let mut a: usize = i;
    while a < j && is_space_char(s.get_char(a))
        invariant
            i <= a <= j <= s@.len(),
            forall|m: int| i <= m < a ==> is_space(s@[m]),
        decreases j - a,
    {
        a = a + 1;
    }
    let mut b: usize = j;
    while b > a && is_space_char(s.get_char(b - 1))
        invariant
            a <= b <= j <= s@.len(),
            forall|m: int| b <= m < j ==> is_space(s@[m]),
        decreases b,
    {
        b = b - 1;
    }
    proof {
        let l = s@.subrange(i as int, j as int);
        assert(forall|m: int| 0 <= m < a - i ==> l[m] == s@[i + m] && is_space(s@[i + m]));
        lemma_trim_front_skip(l, a - i);
        let lf = l.skip(a - i);
        assert(lf =~= s@.subrange(a as int, j as int));
        assert(forall|m: int|
            b - a <= m < lf.len() ==> lf[m] == s@[a + m] && is_space(s@[a + m]));
        lemma_trim_back_take(lf, b - a);
        assert(lf.take(b - a) =~= s@.subrange(a as int, b as int));
    }
    (a, b)
}

/// Unfold one line of `split_lines`: if the line starting at `i` ends at
/// `j`, the lines of the suffix from `i` are that line followed by the
/// lines of the suffix after the break.
proof fn lemma_split_lines_step(s: Seq<char>, i: int, j: int)
    requires
        0 <= i <= j <= s.len(),
        i < s.len(),
        forall|m: int| i <= m < j ==> s[m] != '\n',
        j < s.len() ==> s[j] == '\n',
    ensures
        j < s.len() ==> split_lines(s.skip(i)) == seq![s.subrange(i, j)] + split_lines(
            s.skip(j + 1),
        ),
        j == s.len() ==> split_lines(s.skip(i)) == seq![s.subrange(i, j)],
{
    let rest = s.skip(i);
    assert(forall|m: int| 0 <= m < j - i ==> rest[m] == s[i + m] && s[i + m] != '\n');
    lemma_line_break_at(rest, j - i);
    if j < s.len() {
        assert(rest.subrange(0, j - i) =~= s.subrange(i, j));
        assert(rest.subrange(j - i + 1, rest.len() as int) =~= s.skip(j + 1));
    } else {
        assert(rest =~= s.subrange(i, j));
    }
}

/// Elide line breaks in a block of text.
///
/// Every physical line is trimmed; lines are joined by single spaces,
/// and a line that trims to nothing (a paragraph separator) turns into
/// a single line break. Nothing follows the last line, so a string
/// that is already normalized comes back unchanged.
pub fn reflow_text(input: &str) -> (r: String)
    ensures
        r@ == spec_reflow(input@),
{
    let n = input.unicode_len();
    let mut out = String::new();
    let mut i: usize = 0;
    proof {
        assert(input@.skip(0) =~= input@);
    }
    while i < n
        invariant
            i <= n,
            n == input@.len(),
            out@ + spec_reflow_lines(split_lines(input@.skip(i as int))) == spec_reflow(input@),
        decreases n - i,
    {
        let j = find_line_end(input, i, n);
        let (a, b) = trim_range(input, i, j);
        let last = j == n || j + 1 == n;
        let ghost line = input@.subrange(i as int, j as int);
        let ghost rest_lines = if j < n {
            split_lines(input@.skip(j as int + 1))
        } else {
            Seq::<Seq<char>>::empty()
        };
        let ghost t = spec_trim(line);
        let ghost out0 = out@;
        proof {
            lemma_split_lines_step(input@, i as int, j as int);
            let ls = seq![line] + rest_lines;
            if j == n {
                assert(seq![line] =~= seq![line] + rest_lines);
            }
            assert(split_lines(input@.skip(i as int)) == ls);
            assert(ls[0] == line);
            assert(ls.drop_first() =~= rest_lines);
            if j < n && j + 1 == n {
                assert(input@.skip(j as int + 1) =~= Seq::<char>::empty());
                assert(rest_lines =~= Seq::<Seq<char>>::empty());
            }
            if last {
                assert(ls =~= seq![line]);
                assert(spec_reflow_lines(ls) == t);
            } else {
                assert(rest_lines.len() > 0);
                assert(spec_reflow_lines(ls) == t + (if t.len() == 0 {
                    seq!['\n']
                } else {
                    seq![' ']
                }) + spec_reflow_lines(rest_lines));
            }
        }
        if a < b {
            let piece = input.substring_char(a, b);
            out.append(piece);
        }
        if last {
            proof {
                if a == b {
                    assert(t =~= Seq::<char>::empty());
                }
                assert(out@ =~= out0 + t);
                assert(spec_reflow_lines(rest_lines) =~= Seq::<char>::empty());
                assert(out@ + spec_reflow_lines(rest_lines) =~= out0 + t);
            }
        } else {
            if a == b {
                proof {
                    reveal_strlit("\n");
                    assert("\n"@ =~= seq!['\n']);
                }
                out.append("\n");
                proof {
                    assert(t =~= Seq::<char>::empty());
                    assert(out@ + spec_reflow_lines(rest_lines) =~= out0 + (t + seq!['\n']
                        + spec_reflow_lines(rest_lines)));
                }
            } else {
                proof {
                    reveal_strlit(" ");
                    assert(" "@ =~= seq![' ']);
                }
                out.append(" ");
                proof {
                    assert(out@ + spec_reflow_lines(rest_lines) =~= out0 + (t + seq![' ']
                        + spec_reflow_lines(rest_lines)));
                }
            }
        }
        if j == n {
            i = n;
            proof {
                assert(input@.skip(n as int) =~= Seq::<char>::empty());
            }
        } else {
            i = j + 1;
        }
    }
    proof {
        assert(input@.skip(n as int) =~= Seq::<char>::empty());
    }
    out
}

/// Reformat one passage: its trimmed nonempty lines joined by single
/// spaces. Blank lines vanish; the result has no leading or trailing
/// separator.
pub fn reformat_passage(passage: &str) -> (r: String)
    ensures
        r@ == spec_reformat(passage@),
{
    let n = passage.unicode_len();
    let mut out = String::new();
    let mut started = false;
    let mut i: usize = 0;
    proof {
        assert(passage@.skip(0) =~= passage@);
    }
    while i < n
        invariant
            i <= n,
            n == passage@.len(),
            out@ + spec_join_rest(split_lines(passage@.skip(i as int)), started) == spec_reformat(
                passage@,
            ),
        decreases n - i,
    {
        let j = find_line_end(passage, i, n);
        let (a, b) = trim_range(passage, i, j);
        let ghost line = passage@.subrange(i as int, j as int);
        let ghost rest_lines = if j < n {
            split_lines(passage@.skip(j as int + 1))
        } else {
            Seq::<Seq<char>>::empty()
        };
        let ghost t = spec_trim(line);
        let ghost out0 = out@;
        let ghost started0 = started;
        proof {
            lemma_split_lines_step(passage@, i as int, j as int);
            let ls = seq![line] + rest_lines;
            if j == n {
                assert(seq![line] =~= seq![line] + rest_lines);
            }
            assert(split_lines(passage@.skip(i as int)) == ls);
            assert(ls[0] == line);
            assert(ls.drop_first() =~= rest_lines);
        }
        if a < b {
            if started {
                proof {
                    reveal_strlit(" ");
                    assert(" "@ =~= seq![' ']);
                }
                out.append(" ");
            }
            let piece = passage.substring_char(a, b);
            out.append(piece);
            started = true;
            proof {
                assert(out@ + spec_join_rest(rest_lines, true) =~= out0 + ((if started0 {
                    seq![' ']
                } else {
                    Seq::<char>::empty()
                }) + t + spec_join_rest(rest_lines, true)));
            }
        } else {
            proof {
                assert(t =~= Seq::<char>::empty());
            }
        }
        if j == n {
            i = n;
            proof {
                assert(passage@.skip(n as int) =~= Seq::<char>::empty());
                assert(spec_join_rest(rest_lines, started) =~= Seq::<char>::empty());
            }
        } else {
            i = j + 1;
        }
    }
    proof {
        assert(passage@.skip(n as int) =~= Seq::<char>::empty());
    }
    out
}

/// Split free text into passages: blank-line-delimited blocks, each
/// reformatted as by [`reformat_passage`]. Whitespace-only text yields
/// no passages.
pub fn split_passages(text: &str) -> (r: Vec<String>)
    ensures
        r.deep_view() == spec_passages(text@),
        forall|i: int|
            #![auto]
            0 <= i < r.len() ==> is_normalized(r[i]@) && spec_reformat(r[i]@) == r[i]@,
{
    let n = text.unicode_len();
    let mut out: Vec<String> = Vec::new();
    let mut cur = String::new();
    let mut i: usize = 0;
    proof {
        assert(text@.skip(0) =~= text@);
        assert(out.deep_view() =~= Seq::<Seq<char>>::empty());
    }
    while i < n
        invariant
            i <= n,
            n == text@.len(),
            out.deep_view() + spec_blocks_rest(split_lines(text@.skip(i as int)), cur@)
                == spec_passages(text@),
        decreases n - i,
    {
        let j = find_line_end(text, i, n);
        let (a, b) = trim_range(text, i, j);
        let ghost line = text@.subrange(i as int, j as int);
        let ghost rest_lines = if j < n {
            split_lines(text@.skip(j as int + 1))
        } else {
            Seq::<Seq<char>>::empty()
        };
        let ghost t = spec_trim(line);
        let ghost cur0 = cur@;
        let ghost dv0 = out.deep_view();
        proof {
            lemma_split_lines_step(text@, i as int, j as int);
            let ls = seq![line] + rest_lines;
            if j == n {
                assert(seq![line] =~= seq![line] + rest_lines);
            }
            assert(split_lines(text@.skip(i as int)) == ls);
            assert(ls[0] == line);
            assert(ls.drop_first() =~= rest_lines);
        }
        if a < b {
            if !cur.as_str().is_empty() {
                proof {
                    reveal_strlit(" ");
                    assert(" "@ =~= seq![' ']);
                }
                cur.append(" ");
            }
            let piece = text.substring_char(a, b);
            cur.append(piece);
            proof {
                assert(cur@ =~= (if cur0.len() == 0 {
                    t
                } else {
                    cur0 + seq![' '] + t
                }));
            }
        } else {
            proof {
                assert(t =~= Seq::<char>::empty());
            }
            if !cur.as_str().is_empty() {
                out.push(cur);
                cur = String::new();
                proof {
                    assert(out.deep_view() =~= dv0.push(cur0));
                    assert(dv0.push(cur0) + spec_blocks_rest(rest_lines, Seq::<char>::empty())
                        =~= dv0 + (seq![cur0] + spec_blocks_rest(
                        rest_lines,
                        Seq::<char>::empty(),
                    )));
                }
            }
        }
        if j == n {
            i = n;
            proof {
                assert(text@.skip(n as int) =~= Seq::<char>::empty());
            }
        } else {
            i = j + 1;
        }
    }
    proof {
        assert(text@.skip(n as int) =~= Seq::<char>::empty());
    }
    let ghost dv1 = out.deep_view();
    let ghost cur1 = cur@;
    if !cur.as_str().is_empty() {
        out.push(cur);
        proof {
            assert(out.deep_view() =~= dv1.push(cur1));
            assert(dv1.push(cur1) =~= dv1 + seq![cur1]);
        }
    }
    proof {
        lemma_passages_normalized(text@);
        assert forall|i: int|
            #![auto]
            0 <= i < out.len() implies is_normalized(out[i]@) && spec_reformat(out[i]@)
            == out[i]@ by {
            assert(out[i]@ == out.deep_view()[i]);
            assert(out.deep_view()[i] == spec_passages(text@)[i]);
        }
    }
    out
}

/// Reflow idempotence on already-normalized text: a nonempty
/// single-line string that starts and ends with non-whitespace
/// reflows to itself, unchanged.
pub proof fn lemma_reflow_normalized(s: Seq<char>)
    requires
        s.len() > 0,
        forall|m: int| 0 <= m < s.len() ==> s[m] != '\n',
        !is_space(s[0]),
        !is_space(s[s.len() - 1]),
    ensures
        spec_reflow(s) == s,
{
    lemma_line_break_at(s, s.len() as int);
    assert(split_lines(s) == seq![s]);
    lemma_trim_front_skip(s, 0);
    assert(s.skip(0) =~= s);
    lemma_trim_back_take(s, s.len() as int);
    assert(s.take(s.len() as int) =~= s);
    assert(spec_trim(s) == s);
}

} // verus!
