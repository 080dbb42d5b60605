//! Text groundwork for the interpreter: Unicode whitespace, leading-space
//! trimming, splitting a multi-line string into lines and joining the
//! rendered lines back with line feeds.
//!
//! Lines are split at `'\n'`, a single `'\r'` standing directly before a
//! `'\n'` is dropped with it, and a final line ending produces no empty
//! last line; a trailing `'\r'` with no `'\n'` after it is ordinary line
//! content and is kept. The output lines are rejoined with `'\n'` alone.

use vstd::prelude::*;
use vstd::string::StrSliceExecFns;

verus! {

/// Whether `c` has the Unicode `White_Space` property.
pub open spec fn is_space(c: char) -> bool {
    c == '\u{0009}' || c == '\u{000A}' || c == '\u{000B}' || c == '\u{000C}' || c == '\u{000D}'
        || c == '\u{0020}' || c == '\u{0085}' || c == '\u{00A0}' || c == '\u{1680}'
        || c == '\u{2000}' || c == '\u{2001}' || c == '\u{2002}' || c == '\u{2003}'
        || c == '\u{2004}' || c == '\u{2005}' || c == '\u{2006}' || c == '\u{2007}'
        || c == '\u{2008}' || c == '\u{2009}' || c == '\u{200A}' || c == '\u{2028}'
        || c == '\u{2029}' || c == '\u{202F}' || c == '\u{205F}' || c == '\u{3000}'
}

/// Decide the Unicode `White_Space` property for `c`.
pub fn is_space_char(c: char) -> (b: bool)
    ensures
        b == is_space(c),
{
    c == '\u{0009}' || c == '\u{000A}' || c == '\u{000B}' || c == '\u{000C}' || c == '\u{000D}'
        || c == '\u{0020}' || c == '\u{0085}' || c == '\u{00A0}' || c == '\u{1680}'
        || c == '\u{2000}' || c == '\u{2001}' || c == '\u{2002}' || c == '\u{2003}'
        || c == '\u{2004}' || c == '\u{2005}' || c == '\u{2006}' || c == '\u{2007}'
        || c == '\u{2008}' || c == '\u{2009}' || c == '\u{200A}' || c == '\u{2028}'
        || c == '\u{2029}' || c == '\u{202F}' || c == '\u{205F}' || c == '\u{3000}'
}

/// `l` with its leading whitespace removed.
pub open spec fn trim_start(l: Seq<char>) -> Seq<char>
    decreases l.len(),
{
    if l.len() > 0 && is_space(l[0]) {
        trim_start(l.drop_first())
    } else {
        l
    }
}

/// No character of `l` is `c`.
pub open spec fn absent(l: Seq<char>, c: char) -> bool {
    forall|k: int| 0 <= k < l.len() ==> l[k] != c
}

/// No character of any element of `ss` is `c`.
pub open spec fn all_absent(ss: Seq<Seq<char>>, c: char) -> bool {
    forall|i: int| 0 <= i < ss.len() ==> absent(#[trigger] ss[i], c)
}

/// `s` cut at every `'\n'`; the separators are dropped and the result has
/// one more segment than `s` has line feeds.
pub open spec fn split_newlines(s: Seq<char>) -> Seq<Seq<char>>
    decreases s.len(),
{
    if s.len() == 0 {
        seq![Seq::<char>::empty()]
    } else if s[0] == '\n' {
        seq![Seq::<char>::empty()] + split_newlines(s.drop_first())
    } else {
        let rest = split_newlines(s.drop_first());
        seq![seq![s[0]] + rest[0]] + rest.drop_first()
    }
}

/// `l` without a single trailing `'\r'`, if it has one.
pub open spec fn strip_cr(l: Seq<char>) -> Seq<char> {
    if l.len() > 0 && l[l.len() - 1] == '\r' {
        l.drop_last()
    } else {
        l
    }
}

/// The lines of `s`, cut exactly as Rust's `str::lines` cuts them: split at
/// `'\n'`, a `'\r'` standing directly before a `'\n'` dropped with it, and
/// no empty last line for a final line ending. A segment that no `'\n'`
/// terminates — the last one, when `s` has no final line feed — keeps a
/// trailing `'\r'`. The empty string has no lines.
pub open spec fn lines_of(s: Seq<char>) -> Seq<Seq<char>> {
    if s.len() == 0 {
        Seq::<Seq<char>>::empty()
    } else {
        let raw = split_newlines(s);
        if s[s.len() - 1] == '\n' {
            raw.drop_last().map_values(|l: Seq<char>| strip_cr(l))
        } else {
            raw.drop_last().map_values(|l: Seq<char>| strip_cr(l)).push(raw.last())
        }
    }
}

/// The elements of `ss` concatenated with a `'\n'` between neighbours.
pub open spec fn join_lines(ss: Seq<Seq<char>>) -> Seq<char>
    decreases ss.len(),
{
    if ss.len() == 0 {
        Seq::<char>::empty()
    } else if ss.len() == 1 {
        ss[0]
    } else {
        ss[0] + seq!['\n'] + join_lines(ss.drop_first())
    }
}

/// The digit character for one decimal digit value.
pub open spec fn decimal_digit(d: nat) -> char
    recommends
        d < 10,
{
    if d == 0 {
        '0'
    } else if d == 1 {
        '1'
    } else if d == 2 {
        '2'
    } else if d == 3 {
        '3'
    } else if d == 4 {
        '4'
    } else if d == 5 {
        '5'
    } else if d == 6 {
        '6'
    } else if d == 7 {
        '7'
    } else if d == 8 {
        '8'
    } else {
        '9'
    }
}

/// The decimal digits of `n`, most significant first, with no leading zero
/// except for `n == 0` itself.
pub open spec fn decimal_chars(n: nat) -> Seq<char>
    decreases n,
{
    if n < 10 {
        seq![decimal_digit(n)]
    } else {
        decimal_chars(n / 10).push(decimal_digit(n % 10))
    }
}

/// `split_newlines` never returns an empty list of segments.
pub proof fn lemma_split_newlines_nonempty(s: Seq<char>)
    ensures
        split_newlines(s).len() >= 1,
    decreases s.len(),
{
    if s.len() == 0 {
    } else {
        lemma_split_newlines_nonempty(s.drop_first());
    }
}

/// A character absent from `s` is absent from every segment of its split.
pub proof fn lemma_split_newlines_absent(s: Seq<char>, c: char)
    requires
        absent(s, c),
    ensures
        all_absent(split_newlines(s), c),
    decreases s.len(),
{
    if s.len() == 0 {
        assert(absent(split_newlines(s)[0], c));
    } else {
        assert(absent(s.drop_first(), c));
        lemma_split_newlines_absent(s.drop_first(), c);
        let rest = split_newlines(s.drop_first());
        lemma_split_newlines_nonempty(s.drop_first());
        if s[0] == '\n' {
            let whole = split_newlines(s);
            assert forall|i: int| 0 <= i < whole.len() implies absent(#[trigger] whole[i], c) by {
                if i == 0 {
                } else {
                    assert(whole[i] == rest[i - 1]);
                }
            }
        } else {
            let whole = split_newlines(s);
            assert forall|i: int| 0 <= i < whole.len() implies absent(#[trigger] whole[i], c) by {
                if i == 0 {
                    assert(whole[0] == seq![s[0]] + rest[0]);
                    assert(absent(rest[0], c));
                    assert(s[0] != c);
                } else {
                    assert(whole[i] == rest.drop_first()[i - 1]);
                    assert(rest.drop_first()[i - 1] == rest[i]);
                }
            }
        }
    }
}

/// A character absent from `s` is absent from every line of `s`.
pub proof fn lemma_lines_absent(s: Seq<char>, c: char)
    requires
        absent(s, c),
    ensures
        all_absent(lines_of(s), c),
{
    if s.len() == 0 {
    } else {
        lemma_split_newlines_absent(s, c);
        let raw = split_newlines(s);
        lemma_split_newlines_nonempty(s);
        let ls = lines_of(s);
        assert forall|i: int| 0 <= i < ls.len() implies absent(#[trigger] ls[i], c) by {
            assert(absent(raw[i], c));
            if s[s.len() - 1] != '\n' && i == ls.len() - 1 {
                assert(ls[i] == raw[raw.len() - 1]);
            } else {
                assert(raw.drop_last()[i] == raw[i]);
                assert(ls[i] == strip_cr(raw[i]));
                assert forall|k: int| 0 <= k < ls[i].len() implies ls[i][k] != c by {
                    assert(ls[i][k] == raw[i][k]);
                }
            }
        }
    }
}

/// Trimming removes nothing but whitespace: a character absent from `l` is
/// absent from `trim_start(l)`.
pub proof fn lemma_trim_absent(l: Seq<char>, c: char)
    requires
        absent(l, c),
    ensures
        absent(trim_start(l), c),
    decreases l.len(),
{
    if l.len() > 0 && is_space(l[0]) {
        assert(absent(l.drop_first(), c));
        lemma_trim_absent(l.drop_first(), c);
    }
}

/// Trimming an all-whitespace prefix away first changes nothing.
pub proof fn lemma_trim_space_prefix(w: Seq<char>, t: Seq<char>)
    requires
        forall|k: int| 0 <= k < w.len() ==> is_space(#[trigger] w[k]),
    ensures
        trim_start(w + t) == trim_start(t),
    decreases w.len(),
{
    if w.len() == 0 {
        assert(w + t =~= t);
    } else {
        assert((w + t)[0] == w[0]);
        assert((w + t).drop_first() =~= w.drop_first() + t);
        lemma_trim_space_prefix(w.drop_first(), t);
    }
}

/// Joining after appending one more line appends a separator and that line.
pub proof fn lemma_join_push(ss: Seq<Seq<char>>, l: Seq<char>)
    ensures
        join_lines(ss.push(l)) == if ss.len() == 0 {
            l
        } else {
            join_lines(ss) + seq!['\n'] + l
        },
    decreases ss.len(),
{
    if ss.len() == 0 {
        assert(ss.push(l) =~= seq![l]);
        assert(join_lines(seq![l]) == l);
    } else if ss.len() == 1 {
        assert(ss.push(l).len() == 2);
        assert(ss.push(l)[0] == ss[0]);
        assert(ss.push(l).drop_first() =~= seq![l]);
        assert(join_lines(seq![l]) == l);
        assert(join_lines(ss) == ss[0]);
    } else {
        assert(ss.push(l).drop_first() =~= ss.drop_first().push(l));
        lemma_join_push(ss.drop_first(), l);
        assert(join_lines(ss.push(l)) == ss[0] + seq!['\n'] + join_lines(ss.drop_first().push(l)));
        assert(join_lines(ss.drop_first().push(l)) == join_lines(ss.drop_first()) + seq!['\n']
            + l);
        assert(ss[0] + seq!['\n'] + (join_lines(ss.drop_first()) + seq!['\n'] + l) =~= (ss[0]
            + seq!['\n'] + join_lines(ss.drop_first())) + seq!['\n'] + l);
    }
}

/// Splitting at line feeds and joining with line feeds is the identity.
pub proof fn lemma_join_split(s: Seq<char>)
    ensures
        join_lines(split_newlines(s)) == s,
    decreases s.len(),
{
    if s.len() == 0 {
        assert(join_lines(split_newlines(s)) == Seq::<char>::empty());
        assert(s =~= Seq::<char>::empty());
    } else {
        lemma_join_split(s.drop_first());
        let rest = split_newlines(s.drop_first());
        lemma_split_newlines_nonempty(s.drop_first());
        if s[0] == '\n' {
            let whole = seq![Seq::<char>::empty()] + rest;
            assert(whole.len() >= 2);
            assert(whole.drop_first() =~= rest);
            assert(join_lines(whole) == whole[0] + seq!['\n'] + join_lines(rest));
            assert(whole[0] + seq!['\n'] + s.drop_first() =~= s);
        } else {
            let whole = seq![seq![s[0]] + rest[0]] + rest.drop_first();
            if rest.len() == 1 {
                assert(whole.len() == 1);
                assert(join_lines(whole) == seq![s[0]] + rest[0]);
                assert(join_lines(rest) == rest[0]);
                assert(seq![s[0]] + s.drop_first() =~= s);
            } else {
                assert(whole.len() >= 2);
                assert(whole.drop_first() =~= rest.drop_first());
                assert(join_lines(whole) == (seq![s[0]] + rest[0]) + seq!['\n'] + join_lines(
                    rest.drop_first(),
                ));
                assert(join_lines(rest) == rest[0] + seq!['\n'] + join_lines(rest.drop_first()));
                assert((seq![s[0]] + rest[0]) + seq!['\n'] + join_lines(rest.drop_first())
                    =~= seq![s[0]] + (rest[0] + seq!['\n'] + join_lines(rest.drop_first())));
                assert(seq![s[0]] + s.drop_first() =~= s);
            }
        }
    }
}

/// Collect the characters of `s` into a vector.
pub fn to_chars(s: &str) -> (r: Vec<char>)
    ensures
        r@ == s@,
{
    let n = s.unicode_len();
    let mut r: Vec<char> = Vec::new();
    let mut i: usize = 0;
    while i < n
        invariant
            i <= n,
            n == s@.len(),
            r@ == s@.subrange(0, i as int),
        decreases n - i,
    {
        let c = s.get_char(i);
        r.push(c);
        proof {
            assert(s@.subrange(0, i + 1 as int) =~= s@.subrange(0, i as int).push(s@[i as int]));
        }
        i = i + 1;
    }
    proof {
        assert(s@.subrange(0, n as int) =~= s@);
    }
    r
}

/// Copy the tail of `l` from index `from` on, with its leading whitespace
/// removed.
pub fn trimmed_tail(l: &Vec<char>, from: usize) -> (r: Vec<char>)
    requires
        from <= l@.len(),
    ensures
        r@ == trim_start(l@.subrange(from as int, l@.len() as int)),
{
    let n = l.len();
    let mut i: usize = from;
    while i < n && is_space_char(l[i])
        invariant
            from <= i <= n,
            n == l@.len(),
            trim_start(l@.subrange(from as int, n as int)) == trim_start(
                l@.subrange(i as int, n as int),
            ),
        decreases n - i,
    {
        proof {
            assert(l@.subrange(i as int, n as int)[0] == l@[i as int]);
            assert(l@.subrange(i as int, n as int).drop_first() =~= l@.subrange(
                i + 1 as int,
                n as int,
            ));
        }
        i = i + 1;
    }
    proof {
        if i < n {
            assert(l@.subrange(i as int, n as int)[0] == l@[i as int]);
        }
        assert(trim_start(l@.subrange(i as int, n as int)) == l@.subrange(i as int, n as int));
    }
    let mut r: Vec<char> = Vec::new();
    let mut j: usize = i;
    while j < n
        invariant
            i <= j <= n,
            n == l@.len(),
            r@ == l@.subrange(i as int, j as int),
        decreases n - j,
    {
        r.push(l[j]);
        proof {
            assert(l@.subrange(i as int, j + 1 as int) =~= l@.subrange(i as int, j as int).push(
                l@[j as int],
            ));
        }
        j = j + 1;
    }
    r
}

/// Split `s` into its lines.
pub fn split_lines(s: &Vec<char>) -> (r: Vec<Vec<char>>)
    ensures
        r@.len() == lines_of(s@).len(),
        forall|i: int| 0 <= i < r@.len() ==> #[trigger] r@[i]@ == lines_of(s@)[i],
{
    let n = s.len();
    if n == 0 {
        let r: Vec<Vec<char>> = Vec::new();
        return r;
    }
    let mut done: Vec<Vec<char>> = Vec::new();
    let mut cur: Vec<char> = Vec::new();
    let mut i: usize = 0;
    proof {
        assert(s@.subrange(0, n as int) =~= s@);
        lemma_split_newlines_nonempty(s@);
        assert(done@.map_values(|v: Vec<char>| v@) + seq![cur@ + split_newlines(s@)[0]]
            + split_newlines(s@).drop_first() =~= split_newlines(s@));
    }
    while i < n
        invariant
            i <= n,
            n == s@.len(),
            n > 0,
            split_newlines(s@) == done@.map_values(|v: Vec<char>| v@) + seq![cur@ + split_newlines(
                s@.subrange(i as int, n as int),
            )[0]] + split_newlines(s@.subrange(i as int, n as int)).drop_first(),
        decreases n - i,
    {
        let ghost tail = s@.subrange(i as int, n as int);
        let ghost rest = split_newlines(s@.subrange(i + 1 as int, n as int));
        proof {
            assert(tail[0] == s@[i as int]);
            assert(tail.drop_first() =~= s@.subrange(i + 1 as int, n as int));
            lemma_split_newlines_nonempty(s@.subrange(i + 1 as int, n as int));
        }
        if s[i] == '\n' {
            proof {
                assert(split_newlines(tail) =~= seq![Seq::<char>::empty()] + rest);
                assert((done@.push(cur)).map_values(|v: Vec<char>| v@) =~= done@.map_values(
                    |v: Vec<char>| v@,
                ).push(cur@));
                assert(done@.map_values(|v: Vec<char>| v@) + seq![cur@ + split_newlines(tail)[0]]
                    + split_newlines(tail).drop_first() =~= done@.map_values(
                    |v: Vec<char>| v@,
                ).push(cur@) + seq![Seq::<char>::empty() + rest[0]] + rest.drop_first());
            }
            done.push(cur);
            cur = Vec::new();
        } else {
            proof {
                assert(split_newlines(tail) =~= seq![seq![tail[0]] + rest[0]]
                    + rest.drop_first());
                assert(cur@ + split_newlines(tail)[0] =~= cur@.push(s@[i as int]) + rest[0]);
            }
            cur.push(s[i]);
        }
        i = i + 1;
    }
    proof {
        assert(s@.subrange(n as int, n as int) =~= Seq::<char>::empty());
        assert(split_newlines(Seq::<char>::empty()) == seq![Seq::<char>::empty()]);
        assert(split_newlines(s@) =~= done@.map_values(|v: Vec<char>| v@).push(cur@));
    }
    let ghost raw = split_newlines(s@);
    let mut segs: Vec<Vec<char>> = done;
    let ends_nl = s[n - 1] == '\n';
    if ends_nl {
        // The final line ending opens no new line; the empty last segment is
        // the one `lines_of` drops.
        proof {
            assert(raw.drop_last() =~= segs@.map_values(|v: Vec<char>| v@));
        }
    } else {
        segs.push(cur);
        proof {
            assert(raw =~= segs@.map_values(|v: Vec<char>| v@));
        }
    }
    let mut r: Vec<Vec<char>> = Vec::new();
    let mut k: usize = 0;
    while k < segs.len()
        invariant
            k <= segs@.len(),
            n == s@.len(),
            n > 0,
            ends_nl == (s@[n - 1] == '\n'),
            raw == split_newlines(s@),
            ends_nl ==> raw.drop_last() == segs@.map_values(|v: Vec<char>| v@),
            !ends_nl ==> raw == segs@.map_values(|v: Vec<char>| v@),
            r@.len() == k,
            forall|j: int|
                0 <= j < k ==> #[trigger] r@[j]@ == if ends_nl || j < segs@.len() - 1 {
                    strip_cr(segs@[j]@)
                } else {
                    segs@[j]@
                },
        decreases segs@.len() - k,
    {
        let sg = &segs[k];
        let m = sg.len();
        // A segment that no line feed terminates keeps a trailing carriage
        // return; that is every kept segment but the last one of input
        // without a final line feed.
        let strip_this = ends_nl || k + 1 < segs.len();
        let keep: usize = if strip_this && m > 0 && sg[m - 1] == '\r' {
            m - 1
        } else {
            m
        };
        let mut t: Vec<char> = Vec::new();
        let mut j: usize = 0;
        while j < keep
            invariant
                j <= keep,
                keep <= sg@.len(),
                sg@ == segs@[k as int]@,
                t@ == sg@.subrange(0, j as int),
            decreases keep - j,
        {
            t.push(sg[j]);
            proof {
                assert(sg@.subrange(0, j + 1 as int) =~= sg@.subrange(0, j as int).push(
                    sg@[j as int],
                ));
            }
            j = j + 1;
        }
        proof {
            if strip_this && m > 0 && sg@[m - 1] == '\r' {
                assert(sg@.subrange(0, keep as int) =~= sg@.drop_last());
            } else {
                assert(sg@.subrange(0, keep as int) =~= sg@);
            }
            if strip_this {
                assert(t@ == strip_cr(segs@[k as int]@));
            } else {
                assert(t@ == segs@[k as int]@);
            }
        }
        r.push(t);
        k = k + 1;
    }
    proof {
        lemma_split_newlines_nonempty(s@);
        let ls = lines_of(s@);
        let stripped = raw.drop_last().map_values(|l: Seq<char>| strip_cr(l));
        assert(ls.len() == segs@.len());
        assert forall|j: int| 0 <= j < r@.len() implies #[trigger] r@[j]@ == ls[j] by {
            if ends_nl {
                assert(ls[j] == strip_cr(raw.drop_last()[j]));
                assert(raw.drop_last()[j] == segs@[j]@);
            } else {
                assert(ls == stripped.push(raw.last()));
                if j < segs@.len() - 1 {
                    assert(ls[j] == stripped[j]);
                    assert(stripped[j] == strip_cr(raw.drop_last()[j]));
                    assert(raw.drop_last()[j] == raw[j]);
                    assert(raw[j] == segs@[j]@);
                } else {
                    assert(ls[j] == raw.last());
                    assert(raw[j] == segs@[j]@);
                }
            }
        }
    }
    r
}

} // verus!
