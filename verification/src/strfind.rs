//! Verified text scanning: substring search over character sequences,
//! prefix tests, and decimal formatting of integers.

use vstd::prelude::*;

verus! {

/// The needle `n` occurs in `s` starting at index `i`.
pub open spec fn occurs_at(s: Seq<char>, n: Seq<char>, i: int) -> bool {
    0 <= i && i + n.len() <= s.len() && s.subrange(i, i + n.len()) == n
}

/// The needle `n` occurs somewhere in `s`.
pub open spec fn contains_seq(s: Seq<char>, n: Seq<char>) -> bool {
    exists|i: int| occurs_at(s, n, i)
}

/// `i` is the first index at or after `from` where `n` occurs in `s`.
pub open spec fn first_occurrence_from(s: Seq<char>, n: Seq<char>, from: int, i: int) -> bool {
    &&& from <= i
    &&& occurs_at(s, n, i)
    &&& forall|j: int| from <= j < i ==> !occurs_at(s, n, j)
}

/// `s` begins with the prefix `p`.
pub open spec fn has_prefix(s: Seq<char>, p: Seq<char>) -> bool {
    p.len() <= s.len() && s.subrange(0, p.len() as int) == p
}

/// Compares `pat` against `s` at position `at`, character by character.
fn matches_at(s: &str, s_len: usize, pat: &str, pat_len: usize, at: usize) -> (r: bool)
    requires
        s_len == s@.len(),
        pat_len == pat@.len(),
        at + pat_len <= s_len,
    ensures
        r == occurs_at(s@, pat@, at as int),
{
    let mut j: usize = 0;
    while j < pat_len
        invariant
            s_len == s@.len(),
            pat_len == pat@.len(),
            at + pat_len <= s_len,
            j <= pat_len,
            forall|k: int| 0 <= k < j ==> s@[at + k] == pat@[k],
        decreases pat_len - j,
    {
        if s.get_char(at + j) != pat.get_char(j) {
            assert(s@.subrange(at as int, at + pat_len) != pat@) by {
                assert(s@.subrange(at as int, at + pat_len)[j as int] != pat@[j as int]);
            }
            return false;
        }
        j += 1;
    }
    assert(s@.subrange(at as int, at + pat_len) =~= pat@);
    true
}

/// First index at or after `from` where `pat` occurs in `s`, if any.
pub fn find_str(s: &str, pat: &str, from: usize) -> (r: Option<usize>)
    ensures
        match r {
            Some(i) => first_occurrence_from(s@, pat@, from as int, i as int),
            None => forall|j: int| from <= j ==> !occurs_at(s@, pat@, j),
        },
{
    let s_len = s.unicode_len();
    let pat_len = pat.unicode_len();
    if pat_len > s_len || from > s_len - pat_len {
        assert(forall|j: int| from <= j ==> !occurs_at(s@, pat@, j));
        return None;
    }
    let last = s_len - pat_len;
    let mut i: usize = from;
    while i <= last
        invariant
            s_len == s@.len(),
            pat_len == pat@.len(),
            last == s_len - pat_len,
            from <= i <= last + 1,
            forall|j: int| from <= j < i ==> !occurs_at(s@, pat@, j),
        decreases last + 1 - i,
    {
        if matches_at(s, s_len, pat, pat_len, i) {
            return Some(i);
        }
        if i == last {
            return None;
        }
        i += 1;
    }
    None
}

/// First index at or after `from` whose character is `c`, if any.
pub fn find_char(s: &str, c: char, from: usize) -> (r: Option<usize>)
    ensures
        match r {
            Some(i) => {
                &&& from <= i < s@.len()
                &&& s@[i as int] == c
                &&& forall|j: int| from <= j < i ==> s@[j] != c
            },
            None => forall|j: int| from <= j < s@.len() ==> s@[j] != c,
        },
{
    let s_len = s.unicode_len();
    let mut i: usize = from;
    while i < s_len
        invariant
            s_len == s@.len(),
            from <= i,
            forall|j: int| from <= j < i ==> s@[j] != c,
        decreases s_len - i,
    {
        if s.get_char(i) == c {
            return Some(i);
        }
        i += 1;
    }
    None
}

/// Whether `s` begins with `p`.
pub fn str_has_prefix(s: &str, p: &str) -> (r: bool)
    ensures
        r == has_prefix(s@, p@),
{
    let s_len = s.unicode_len();
    let p_len = p.unicode_len();
    if p_len > s_len {
        return false;
    }
    matches_at(s, s_len, p, p_len, 0)
}

/// What replacing every underscore with a dot yields.
pub open spec fn underscores_to_dots(s: Seq<char>) -> Seq<char> {
    s.map_values(
        |c: char|
            if c == '_' {
                '.'
            } else {
                c
            },
    )
}

/// Relies on `str::replace` of std: replaces every match of the pattern —
/// here the single character `_` — with the replacement string, leaving
/// every other character in place.
#[verifier::external_body]
pub fn replace_underscores(s: &str) -> (r: String)
    ensures
        r@ == underscores_to_dots(s@),
{
    s.replace('_', ".")
}

/// Keeps, in order, the images of the elements `f` maps to a value.
pub open spec fn filtered_map<A, B>(s: Seq<A>, f: spec_fn(A) -> Option<B>) -> Seq<B>
    decreases s.len(),
{
    if s.len() == 0 {
        Seq::empty()
    } else {
        filtered_map(s.drop_last(), f) + match f(s.last()) {
            Some(b) => seq![b],
            None => Seq::empty(),
        }
    }
}

/// Extending the input by one element extends the result by that element's
/// image, if it has one.
pub proof fn lemma_filtered_map_extend<A, B>(s: Seq<A>, i: int, f: spec_fn(A) -> Option<B>)
    requires
        0 <= i < s.len(),
    ensures
        filtered_map(s.subrange(0, i + 1), f) == filtered_map(s.subrange(0, i), f) + (match f(
            s[i],
        ) {
            Some(b) => seq![b],
            None => Seq::empty(),
        }),
{
    let p = s.subrange(0, i + 1);
    assert(p.drop_last() =~= s.subrange(0, i));
    assert(p.last() == s[i]);
}

/// The directory part of a path: everything before the last slash, the
/// root directory when the last slash leads the path, nothing when the
/// path has no slash. Matches how std's `Path::parent` treats an
/// absolute path without a trailing slash.
pub open spec fn parent_of(s: Seq<char>) -> Option<Seq<char>> {
    if exists|i: int| 0 <= i < s.len() && s[i] == '/' {
        let i = choose|i: int|
            0 <= i < s.len() && s[i] == '/' && (forall|j: int| i < j < s.len() ==> s[j] != '/');
        if i == 0 {
            if s.len() == 1 {
                None
            } else {
                Some("/"@)
            }
        } else {
            Some(s.subrange(0, i))
        }
    } else {
        None
    }
}

/// Last index whose character is `c`, if any.
pub fn rfind_char(s: &str, c: char) -> (r: Option<usize>)
    ensures
        match r {
            Some(i) => {
                &&& 0 <= i < s@.len()
                &&& s@[i as int] == c
                &&& forall|j: int| i < j < s@.len() ==> s@[j] != c
            },
            None => forall|j: int| 0 <= j < s@.len() ==> s@[j] != c,
        },
{
    let s_len = s.unicode_len();
    let mut i: usize = s_len;
    while i > 0
        invariant
            s_len == s@.len(),
            i <= s_len,
            forall|j: int| i <= j < s@.len() ==> s@[j] != c,
        decreases i,
    {
        i -= 1;
        if s.get_char(i) == c {
            return Some(i);
        }
    }
    None
}

/// The directory part of a path, as `parent_of` gives it.
pub fn parent_dir(s: &str) -> (r: Option<String>)
    ensures
        match r {
            Some(p) => parent_of(s@) == Some(p@),
            None => parent_of(s@) is None,
        },
{
    proof {
        reveal_strlit("/");
    }
    let s_len = s.unicode_len();
    match rfind_char(s, '/') {
        None => None,
        Some(i) => {
            proof {
                let spec_i = choose|k: int|
                    0 <= k < s@.len() && s@[k] == '/' && (forall|j: int|
                        k < j < s@.len() ==> s@[j] != '/');
                assert(!(spec_i < i as int) && !((i as int) < spec_i));
            }
            if i == 0 {
                if s_len == 1 {
                    None
                } else {
                    Some("/".to_owned())
                }
            } else {
                Some(s.substring_char(0, i).to_owned())
            }
        },
    }
}

/// A line with a trailing carriage return removed.
pub open spec fn strip_cr(l: Seq<char>) -> Seq<char> {
    if l.len() > 0 && l.last() == '\r' {
        l.drop_last()
    } else {
        l
    }
}

/// The lines of a text, split at newlines, each without its line ending;
/// a final fragment without a newline is still a line, a trailing newline
/// adds none.
pub open spec fn split_lines(s: Seq<char>) -> Seq<Seq<char>>
    decreases s.len(),
{
    if s.len() == 0 {
        Seq::empty()
    } else if exists|j: int|
        0 <= j < s.len() && s[j] == '\n' && (forall|k: int| 0 <= k < j ==> s[k] != '\n') {
        let j = choose|j: int|
            0 <= j < s.len() && s[j] == '\n' && (forall|k: int| 0 <= k < j ==> s[k] != '\n');
        seq![strip_cr(s.subrange(0, j))] + split_lines(s.subrange(j + 1, s.len() as int))
    } else {
        seq![strip_cr(s)]
    }
}

/// Splitting takes the text apart at its first newline.
pub proof fn lemma_split_lines_step(s: Seq<char>, j: int)
    requires
        0 <= j < s.len(),
        s[j] == '\n',
        forall|k: int| 0 <= k < j ==> s[k] != '\n',
    ensures
        split_lines(s) == seq![strip_cr(s.subrange(0, j))] + split_lines(
            s.subrange(j + 1, s.len() as int),
        ),
{
    let j0 = choose|j0: int|
        0 <= j0 < s.len() && s[j0] == '\n' && (forall|k: int| 0 <= k < j0 ==> s[k] != '\n');
    assert(!(j0 < j) && !(j < j0));
}

/// A text without a newline is one line.
pub proof fn lemma_split_lines_whole(s: Seq<char>)
    requires
        s.len() > 0,
        forall|k: int| 0 <= k < s.len() ==> s[k] != '\n',
    ensures
        split_lines(s) == seq![strip_cr(s)],
{
    if exists|j: int|
        0 <= j < s.len() && s[j] == '\n' && (forall|k: int| 0 <= k < j ==> s[k] != '\n') {
        let j = choose|j: int|
            0 <= j < s.len() && s[j] == '\n' && (forall|k: int| 0 <= k < j ==> s[k] != '\n');
        assert(false);
    }
}

/// The lines of `s`, as `split_lines` gives them.
#[verifier::rlimit(60)]
pub fn split_text_lines(s: &str) -> (r: Vec<String>)
    ensures
        r@.map_values(|l: String| l@) == split_lines(s@),
{
    let s_len = s.unicode_len();
    let mut r: Vec<String> = Vec::new();
    let mut p: usize = 0;
    proof {
        assert(s@.subrange(0, s_len as int) =~= s@);
        assert(r@.map_values(|l: String| l@) =~= Seq::<Seq<char>>::empty());
    }
    while p < s_len
        invariant
            s_len == s@.len(),
            p <= s_len,
            split_lines(s@) == r@.map_values(|l: String| l@) + split_lines(
                s@.subrange(p as int, s_len as int),
            ),
        decreases s_len - p,
    {
        let ghost rest = s@.subrange(p as int, s_len as int);
        let ghost prev = r@.map_values(|l: String| l@);
        match find_char(s, '\n', p) {
            Some(nl) => {
                let line_end = if nl > p && s.get_char(nl - 1) == '\r' {
                    nl - 1
                } else {
                    nl
                };
                r.push(s.substring_char(p, line_end).to_owned());
                proof {
                    let j = nl - p;
                    assert(rest[j as int] == s@[nl as int]);
                    assert forall|k: int| 0 <= k < j implies rest[k] != '\n' by {
                        assert(rest[k] == s@[p + k]);
                    }
                    lemma_split_lines_step(rest, j as int);
                    assert(rest.subrange(0, j as int) =~= s@.subrange(p as int, nl as int));
                    let chunk = s@.subrange(p as int, nl as int);
                    if nl > p && s@[nl - 1] == '\r' {
                        assert(chunk.drop_last() =~= s@.subrange(p as int, (nl - 1) as int));
                        assert(strip_cr(chunk) == s@.subrange(p as int, line_end as int));
                    } else {
                        assert(strip_cr(chunk) == s@.subrange(p as int, line_end as int));
                    }
                    assert(rest.subrange(j + 1, rest.len() as int) =~= s@.subrange(
                        (nl + 1) as int,
                        s_len as int,
                    ));
                    assert(r@.map_values(|l: String| l@) =~= prev + seq![
                        s@.subrange(p as int, line_end as int),
                    ]);
                }
                p = nl + 1;
            },
            None => {
                let line_end = if s.get_char(s_len - 1) == '\r' {
                    s_len - 1
                } else {
                    s_len
                };
                r.push(s.substring_char(p, line_end).to_owned());
                proof {
                    assert forall|k: int| 0 <= k < rest.len() implies rest[k] != '\n' by {
                        assert(rest[k] == s@[p + k]);
                    }
                    lemma_split_lines_whole(rest);
                    assert(rest.last() == s@[s_len - 1]);
                    if s@[s_len - 1] == '\r' {
                        assert(rest.drop_last() =~= s@.subrange(p as int, (s_len - 1) as int));
                        assert(strip_cr(rest) == s@.subrange(p as int, line_end as int));
                    } else {
                        assert(strip_cr(rest) =~= s@.subrange(p as int, line_end as int));
                    }
                    assert(r@.map_values(|l: String| l@) =~= prev + seq![
                        s@.subrange(p as int, line_end as int),
                    ]);
                    assert(s@.subrange(s_len as int, s_len as int).len() == 0);
                }
                p = s_len;
            },
        }
    }
    proof {
        assert(s@.subrange(s_len as int, s_len as int).len() == 0);
    }
    r
}

/// Whether a character separates fields for whitespace splitting.
pub open spec fn is_space(c: char) -> bool {
    c == ' ' || c == '\t' || c == '\n' || c == '\r'
}

/// The whitespace-separated words of a text: `cur` is the word under
/// construction, empty words are dropped.
pub open spec fn split_ws_acc(s: Seq<char>, cur: Seq<char>) -> Seq<Seq<char>>
    decreases s.len(),
{
    if s.len() == 0 {
        if cur.len() == 0 {
            Seq::empty()
        } else {
            seq![cur]
        }
    } else if is_space(s[0]) {
        (if cur.len() == 0 {
            Seq::empty()
        } else {
            seq![cur]
        }) + split_ws_acc(s.drop_first(), Seq::empty())
    } else {
        split_ws_acc(s.drop_first(), cur.push(s[0]))
    }
}

/// The whitespace-separated words of a text.
pub open spec fn split_ws(s: Seq<char>) -> Seq<Seq<char>> {
    split_ws_acc(s, Seq::empty())
}

/// The whitespace-separated words of `s`, as strings.
pub fn split_whitespace_words(s: &str) -> (r: Vec<String>)
    ensures
        r@.map_values(|t: String| t@) == split_ws(s@),
{
    let s_len = s.unicode_len();
    let mut r: Vec<String> = Vec::new();
    let mut a: usize = 0;
    let mut p: usize = 0;
    proof {
        assert(s@.subrange(0, s_len as int) =~= s@);
        assert(s@.subrange(0, 0) =~= Seq::<char>::empty());
        assert(r@.map_values(|t: String| t@) =~= Seq::<Seq<char>>::empty());
    }
    while p < s_len
        invariant
            s_len == s@.len(),
            a <= p <= s_len,
            split_ws(s@) == r@.map_values(|t: String| t@) + split_ws_acc(
                s@.subrange(p as int, s_len as int),
                s@.subrange(a as int, p as int),
            ),
        decreases s_len - p,
    {
        let ghost rest = s@.subrange(p as int, s_len as int);
        let ghost cur = s@.subrange(a as int, p as int);
        proof {
            assert(rest[0] == s@[p as int]);
            assert(rest.drop_first() =~= s@.subrange(p + 1, s_len as int));
        }
        let c = s.get_char(p);
        if c == ' ' || c == '\t' || c == '\n' || c == '\r' {
            if a < p {
                let ghost prev = r@.map_values(|t: String| t@);
                r.push(s.substring_char(a, p).to_owned());
                proof {
                    assert(r@.map_values(|t: String| t@) =~= prev + seq![cur]);
                }
            }
            a = p + 1;
            proof {
                assert(s@.subrange((p + 1) as int, (p + 1) as int) =~= Seq::<char>::empty());
            }
        } else {
            proof {
                assert(cur.push(s@[p as int]) =~= s@.subrange(a as int, (p + 1) as int));
            }
        }
        p += 1;
    }
    if a < s_len {
        let ghost prev = r@.map_values(|t: String| t@);
        r.push(s.substring_char(a, s_len).to_owned());
        proof {
            assert(s@.subrange(p as int, s_len as int).len() == 0);
            assert(r@.map_values(|t: String| t@) =~= prev + seq![
                s@.subrange(a as int, s_len as int),
            ]);
        }
    }
    proof {
        assert(s@.subrange(p as int, s_len as int).len() == 0);
    }
    r
}

/// The pieces of a text split at every occurrence of `c`, kept empty
/// where two occurrences touch; `cur` is the piece under construction.
pub open spec fn split_on_acc(s: Seq<char>, c: char, cur: Seq<char>) -> Seq<Seq<char>>
    decreases s.len(),
{
    if s.len() == 0 {
        seq![cur]
    } else if s[0] == c {
        seq![cur] + split_on_acc(s.drop_first(), c, Seq::empty())
    } else {
        split_on_acc(s.drop_first(), c, cur.push(s[0]))
    }
}

/// The pieces of a text split at every occurrence of `c`: an empty text
/// gives one empty piece.
pub open spec fn split_on(s: Seq<char>, c: char) -> Seq<Seq<char>> {
    split_on_acc(s, c, Seq::empty())
}

/// The fields of `s` split at every `sep`, as strings.
pub fn split_fields(s: &str, sep: char) -> (r: Vec<String>)
    ensures
        r@.map_values(|t: String| t@) == split_on(s@, sep),
{
    let s_len = s.unicode_len();
    let mut r: Vec<String> = Vec::new();
    let mut a: usize = 0;
    let mut p: usize = 0;
    proof {
        assert(s@.subrange(0, s_len as int) =~= s@);
        assert(s@.subrange(0, 0) =~= Seq::<char>::empty());
        assert(r@.map_values(|t: String| t@) =~= Seq::<Seq<char>>::empty());
    }
    while p < s_len
        invariant
            s_len == s@.len(),
            a <= p <= s_len,
            split_on(s@, sep) == r@.map_values(|t: String| t@) + split_on_acc(
                s@.subrange(p as int, s_len as int),
                sep,
                s@.subrange(a as int, p as int),
            ),
        decreases s_len - p,
    {
        let ghost rest = s@.subrange(p as int, s_len as int);
        let ghost cur = s@.subrange(a as int, p as int);
        proof {
            assert(rest[0] == s@[p as int]);
            assert(rest.drop_first() =~= s@.subrange(p + 1, s_len as int));
        }
        if s.get_char(p) == sep {
            let ghost prev = r@.map_values(|t: String| t@);
            r.push(s.substring_char(a, p).to_owned());
            proof {
                assert(r@.map_values(|t: String| t@) =~= prev + seq![cur]);
            }
            a = p + 1;
            proof {
                assert(s@.subrange((p + 1) as int, (p + 1) as int) =~= Seq::<char>::empty());
            }
        } else {
            proof {
                assert(cur.push(s@[p as int]) =~= s@.subrange(a as int, (p + 1) as int));
            }
        }
        p += 1;
    }
    let ghost prev = r@.map_values(|t: String| t@);
    r.push(s.substring_char(a, s_len).to_owned());
    proof {
        assert(s@.subrange(p as int, s_len as int).len() == 0);
        assert(r@.map_values(|t: String| t@) =~= prev + seq![s@.subrange(a as int, s_len as int)]);
    }
    r
}

/// A path joined with a further component, as std's `Path::join` does it
/// for a relative component: an empty base gives the component alone, and
/// exactly one separator stands between the two.
pub open spec fn path_join(dir: Seq<char>, file: Seq<char>) -> Seq<char> {
    if dir.len() == 0 {
        file
    } else if dir.last() == '/' {
        dir + file
    } else {
        dir + "/"@ + file
    }
}

/// The last component of a path: everything after the last slash, or the
/// whole path when it has none.
pub open spec fn base_name_of(s: Seq<char>) -> Seq<char> {
    if exists|i: int| 0 <= i < s.len() && s[i] == '/' {
        let i = choose|i: int|
            0 <= i < s.len() && s[i] == '/' && (forall|j: int| i < j < s.len() ==> s[j] != '/');
        s.subrange(i + 1, s.len() as int)
    } else {
        s
    }
}

/// The last component of a path, as `base_name_of` gives it.
pub fn base_name(s: &str) -> (r: String)
    ensures
        r@ == base_name_of(s@),
{
    let s_len = s.unicode_len();
    match rfind_char(s, '/') {
        None => s.to_owned(),
        Some(i) => {
            proof {
                let spec_i = choose|k: int|
                    0 <= k < s@.len() && s@[k] == '/' && (forall|j: int|
                        k < j < s@.len() ==> s@[j] != '/');
                assert(!(spec_i < i as int) && !((i as int) < spec_i));
            }
            s.substring_char(i + 1, s_len).to_owned()
        },
    }
}

/// The text with every trailing newline removed.
pub open spec fn strip_trailing_newlines(s: Seq<char>) -> Seq<char>
    decreases s.len(),
{
    if s.len() > 0 && s.last() == '\n' {
        strip_trailing_newlines(s.drop_last())
    } else {
        s
    }
}

/// Removes every trailing newline.
pub fn trim_newlines(s: &str) -> (r: String)
    ensures
        r@ == strip_trailing_newlines(s@),
{
    let s_len = s.unicode_len();
    let mut e: usize = s_len;
    proof {
        assert(s@.subrange(0, s_len as int) =~= s@);
    }
    while e > 0 && s.get_char(e - 1) == '\n'
        invariant
            s_len == s@.len(),
            e <= s_len,
            strip_trailing_newlines(s@) == strip_trailing_newlines(s@.subrange(0, e as int)),
        decreases e,
    {
        proof {
            assert(s@.subrange(0, e as int).drop_last() =~= s@.subrange(0, e - 1));
        }
        e -= 1;
    }
    proof {
        let p = s@.subrange(0, e as int);
        assert(!(p.len() > 0 && p.last() == '\n'));
    }
    s.substring_char(0, e).to_owned()
}

/// The decimal digit character for a value below ten.
pub open spec fn dec_digit(d: int) -> char {
    if d == 0 {
        '0'
    } else if d == 1 {
        '1'
    } else if d == 2 {
        '2'
    } else if d == 3 {
        '3'
    } else if d == 4 {
        '4'
    } else if d == 5 {
        '5'
    } else if d == 6 {
        '6'
    } else if d == 7 {
        '7'
    } else if d == 8 {
        '8'
    } else {
        '9'
    }
}

/// Decimal representation of a natural number, most significant digit first.
pub open spec fn dec_rep(n: nat) -> Seq<char>
    decreases n,
{
    if n < 10 {
        seq![dec_digit(n as int)]
    } else {
        dec_rep(n / 10) + seq![dec_digit((n % 10) as int)]
    }
}

/// Decimal representation of an integer, with a leading minus sign
/// when it is negative.
pub open spec fn dec_rep_signed(n: int) -> Seq<char> {
    if n < 0 {
        seq!['-'] + dec_rep((-n) as nat)
    } else {
        dec_rep(n as nat)
    }
}

/// The one-character string for a decimal digit.
fn digit_str(d: u64) -> (r: &'static str)
    requires
        d < 10,
    ensures
        r@ =~= seq![dec_digit(d as int)],
{
    proof {
        reveal_strlit("0");
        reveal_strlit("1");
        reveal_strlit("2");
        reveal_strlit("3");
        reveal_strlit("4");
        reveal_strlit("5");
        reveal_strlit("6");
        reveal_strlit("7");
        reveal_strlit("8");
        reveal_strlit("9");
    }
    match d {
        0 => "0",
        1 => "1",
        2 => "2",
        3 => "3",
        4 => "4",
        5 => "5",
        6 => "6",
        7 => "7",
        8 => "8",
        _ => "9",
    }
}

/// Formats a natural number in decimal.
pub fn u64_to_dec(n: u64) -> (s: String)
    ensures
        s@ == dec_rep(n as nat),
{
    if n < 10 {
        let s = String::from_str(digit_str(n));
        assert(s@ =~= dec_rep(n as nat));
        return s;
    }
    let mut acc = String::from_str(digit_str(n % 10));
    let mut m: u64 = n / 10;
    proof {
        assert(dec_rep(n as nat) =~= dec_rep((n / 10) as nat) + acc@);
    }
    while m >= 10
        invariant
            m >= 1,
            dec_rep(n as nat) =~= dec_rep(m as nat) + acc@,
        decreases m,
    {
        let ghost old_acc = acc@;
        let ghost old_m = m as nat;
        let d = String::from_str(digit_str(m % 10));
        acc = d.concat(acc.as_str());
        m = m / 10;
        proof {
            assert(dec_rep(old_m) =~= dec_rep(m as nat) + seq![
                dec_digit((old_m % 10) as int),
            ]);
            assert(dec_rep(n as nat) =~= dec_rep(m as nat) + acc@);
        }
    }
    let d = String::from_str(digit_str(m));
    let s = d.concat(acc.as_str());
    assert(dec_rep(m as nat) =~= seq![dec_digit(m as int)]);
    assert(s@ =~= dec_rep(n as nat));
    s
}

/// Formats a signed number in decimal.
pub fn i64_to_dec(n: i64) -> (s: String)
    ensures
        s@ == dec_rep_signed(n as int),
{
    if n >= 0 {
        u64_to_dec(n as u64)
    } else {
        proof {
            reveal_strlit("-");
        }
        let mag: u64 = if n == i64::MIN {
            9223372036854775808u64
        } else {
            (-n) as u64
        };
        let sign = String::from_str("-");
        let s = sign.concat(u64_to_dec(mag).as_str());
        assert(s@ =~= dec_rep_signed(n as int));
        s
    }
}

} // verus!
