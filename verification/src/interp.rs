//! The formatting-code interpreter: one left-to-right pass per line over the
//! escape-code markup, producing the styled fragments of that line.

use vstd::prelude::*;
use crate::codes::{ESCAPE_CHAR, is_color_code, code_rgb, Rgb};
use crate::style::{Fragment, StyleState, apply_code, emit, init_state, initial_state, step_code,
    emit_char};
use crate::text::{is_space, trim_start, absent, lines_of, split_lines, to_chars, trimmed_tail,
    lemma_trim_absent};

verus! {

/// A line after leading-code hoisting: a line that begins with the escape
/// character keeps its two-character code prefix and has the whitespace after
/// it stripped; any other line has its leading whitespace stripped.
pub open spec fn preprocess(l: Seq<char>) -> Seq<char> {
    if l.len() >= 2 && l[0] == ESCAPE_CHAR {
        l.subrange(0, 2) + trim_start(l.subrange(2, l.len() as int))
    } else {
        trim_start(l)
    }
}

/// The fragments emitted by scanning `l` under state `st`: an escape
/// character consumes the following code character and changes the state
/// (a lone trailing escape consumes nothing more and emits nothing); any
/// other character emits one fragment under the current state.
pub open spec fn scan_from(l: Seq<char>, st: StyleState) -> Seq<Fragment>
    decreases l.len(),
{
    if l.len() == 0 {
        Seq::<Fragment>::empty()
    } else if l[0] == ESCAPE_CHAR {
        if l.len() == 1 {
            Seq::<Fragment>::empty()
        } else {
            scan_from(l.subrange(2, l.len() as int), apply_code(st, l[1]))
        }
    } else {
        seq![emit(st, l[0])] + scan_from(l.drop_first(), st)
    }
}

/// The fragments of one raw line: hoist the leading code, then scan from a
/// fresh state.
pub open spec fn line_fragments(l: Seq<char>) -> Seq<Fragment> {
    scan_from(preprocess(l), init_state())
}

/// The unstyled fragment holding `c`.
pub open spec fn plain_of(c: char) -> Fragment {
    Fragment::Plain(c)
}

/// Every character of `l` as an unstyled fragment.
pub open spec fn plain_fragments(l: Seq<char>) -> Seq<Fragment>
    decreases l.len(),
{
    if l.len() == 0 {
        Seq::<Fragment>::empty()
    } else {
        seq![plain_of(l[0])] + plain_fragments(l.drop_first())
    }
}

/// Hoist the leading code of one raw line.
pub fn preprocess_line(l: &Vec<char>) -> (r: Vec<char>)
    ensures
        r@ == preprocess(l@),
{
    if l.len() >= 2 && l[0] == ESCAPE_CHAR {
        let mut r: Vec<char> = Vec::new();
        r.push(l[0]);
        r.push(l[1]);
        let mut tail = trimmed_tail(l, 2);
        proof {
            assert(r@ =~= l@.subrange(0, 2));
        }
        r.append(&mut tail);
        r
    } else {
        let r = trimmed_tail(l, 0);
        proof {
            assert(l@.subrange(0, l@.len() as int) =~= l@);
        }
        r
    }
}

/// Scan one preprocessed line from a fresh state.
pub fn scan_line(l: &Vec<char>) -> (r: Vec<Fragment>)
    ensures
        r@ == scan_from(l@, init_state()),
{
    let n = l.len();
    let mut out: Vec<Fragment> = Vec::new();
    let mut st = initial_state();
    let mut i: usize = 0;
    proof {
        assert(l@.subrange(0, n as int) =~= l@);
        assert(out@ + scan_from(l@, init_state()) =~= scan_from(l@, init_state()));
    }
    while i < n
        invariant
            i <= n,
            n == l@.len(),
            scan_from(l@, init_state()) == out@ + scan_from(l@.subrange(i as int, n as int), st),
        decreases n - i,
    {
        let ghost tail = l@.subrange(i as int, n as int);
        proof {
            assert(tail[0] == l@[i as int]);
        }
        let c = l[i];
        if c == ESCAPE_CHAR {
            if i + 1 < n {
                proof {
                    assert(tail[1] == l@[i + 1]);
                    assert(tail.subrange(2, tail.len() as int) =~= l@.subrange(
                        i + 2 as int,
                        n as int,
                    ));
                }
                let x = l[i + 1];
                st = step_code(st, x);
                i = i + 2;
            } else {
                proof {
                    assert(tail.len() == 1);
                    assert(l@.subrange(n as int, n as int) =~= Seq::<char>::empty());
                }
                i = i + 1;
            }
        } else {
            proof {
                assert(tail.drop_first() =~= l@.subrange(i + 1 as int, n as int));
            }
            let f = emit_char(st, c);
            out.push(f);
            i = i + 1;
        }
    }
    proof {
        assert(l@.subrange(n as int, n as int) =~= Seq::<char>::empty());
        assert(out@ + Seq::<Fragment>::empty() =~= out@);
    }
    out
}

/// Interpret one raw line: hoist its leading code, then scan it.
pub fn interpret_line(l: &Vec<char>) -> (r: Vec<Fragment>)
    ensures
        r@ == line_fragments(l@),
{
    let p = preprocess_line(l);
    scan_line(&p)
}

/// Interpret a whole description: split it into lines and interpret each
/// line independently from a fresh state.
pub fn interpret(s: &str) -> (r: Vec<Vec<Fragment>>)
    ensures
        r@.len() == lines_of(s@).len(),
        forall|i: int| 0 <= i < r@.len() ==> #[trigger] r@[i]@ == line_fragments(lines_of(s@)[i]),
{
    let chars = to_chars(s);
    let lines = split_lines(&chars);
    let mut r: Vec<Vec<Fragment>> = Vec::new();
    let mut k: usize = 0;
    while k < lines.len()
        invariant
            k <= lines@.len(),
            lines@.len() == lines_of(s@).len(),
            forall|i: int| 0 <= i < lines@.len() ==> #[trigger] lines@[i]@ == lines_of(s@)[i],
            r@.len() == k,
            forall|i: int| 0 <= i < k ==> #[trigger] r@[i]@ == line_fragments(lines_of(s@)[i]),
        decreases lines@.len() - k,
    {
        let frags = interpret_line(&lines[k]);
        r.push(frags);
        k = k + 1;
    }
    r
}

/// The reset code restores the fresh state whatever came before it, so a
/// plain character right after it is emitted unstyled.
pub proof fn lemma_reset_restores_initial(st: StyleState, c: char)
    requires
        c != ESCAPE_CHAR,
    ensures
        apply_code(st, 'r') == init_state(),
        scan_from(seq![ESCAPE_CHAR, 'r', c], st) == seq![Fragment::Plain(c)],
{
    let l = seq![ESCAPE_CHAR, 'r', c];
    assert(l.len() == 3 && l[0] == ESCAPE_CHAR && l[1] == 'r' && l[2] == c);
    assert(l.subrange(2, 3) =~= seq![c]);
    assert(scan_from(l, st) == scan_from(seq![c], apply_code(st, 'r')));
    assert(seq![c].len() == 1 && seq![c][0] == c);
    assert(seq![c].drop_first() =~= Seq::<char>::empty());
    assert(scan_from(seq![c], init_state()) == seq![emit(init_state(), c)] + scan_from(
        Seq::<char>::empty(),
        init_state(),
    ));
    assert(seq![emit(init_state(), c)] + Seq::<Fragment>::empty() =~= seq![Fragment::Plain(c)]);
}

/// A color code sets the color and clears every style flag, whatever flags
/// were active before it.
pub proof fn lemma_color_clears_styles(st: StyleState, x: char)
    requires
        is_color_code(x),
    ensures
        apply_code(st, x) == (StyleState {
            color: Some(code_rgb(x)),
            obfuscated: false,
            bold: false,
            strikethrough: false,
            underline: false,
            italic: false,
        }),
{
}

/// Under an active color with obfuscation, a non-space character is emitted
/// as a placeholder in that color alone, and a space stays an unstyled space.
pub proof fn lemma_obfuscation(st: StyleState, c: char, rgb: Rgb)
    requires
        st.color == Some(rgb),
        st.obfuscated,
    ensures
        c == ' ' ==> emit(st, c) == Fragment::Plain(' '),
        c != ' ' ==> emit(st, c) == (Fragment::Styled {
            ch: '?',
            color: rgb,
            bold: false,
            strikethrough: false,
            underline: false,
            italic: false,
        }),
{
}

/// An unrecognized code character changes nothing: neither the color nor any
/// flag.
pub proof fn lemma_unknown_code_is_noop(st: StyleState, x: char)
    requires
        x != 'r',
        x != 'k',
        x != 'l',
        x != 'm',
        x != 'n',
        x != 'o',
        !is_color_code(x),
    ensures
        apply_code(st, x) == st,
{
}

/// Leading-code hoisting: whitespace standing before a line's leading code
/// is dropped, so the line is interpreted exactly as if the code stood
/// first. (The line after the code must carry no further leading whitespace,
/// which hoisting the code would also strip.)
pub proof fn lemma_leading_code_hoisting(w: Seq<char>, t: Seq<char>)
    requires
        forall|k: int| 0 <= k < w.len() ==> is_space(#[trigger] w[k]),
        t.len() >= 2,
        t[0] == ESCAPE_CHAR,
        trim_start(t.subrange(2, t.len() as int)) == t.subrange(2, t.len() as int),
    ensures
        line_fragments(w + t) == line_fragments(t),
{
    assert(preprocess(t) == t.subrange(0, 2) + trim_start(t.subrange(2, t.len() as int)));
    assert(t.subrange(0, 2) + t.subrange(2, t.len() as int) =~= t);
    if w.len() == 0 {
        assert(w + t =~= t);
    } else {
        let u = w + t;
        assert(u[0] == w[0]);
        assert(!is_space(ESCAPE_CHAR));
        assert(u[0] != ESCAPE_CHAR);
        crate::text::lemma_trim_space_prefix(w, t);
        assert(preprocess(u) == trim_start(t));
        assert(trim_start(t) == t);
    }
}

/// A lone escape character at the end of a line consumes itself and emits
/// nothing: the scan never fails on it.
pub proof fn lemma_trailing_escape(l: Seq<char>, st: StyleState)
    ensures
        scan_from(l.push(ESCAPE_CHAR), st) == scan_from(l, st),
    decreases l.len(),
{
    let p = l.push(ESCAPE_CHAR);
    if l.len() == 0 {
        assert(p.len() == 1 && p[0] == ESCAPE_CHAR);
    } else if l[0] == ESCAPE_CHAR {
        if l.len() == 1 {
            assert(p.len() == 2);
            assert(p[0] == ESCAPE_CHAR);
            assert(p.subrange(2, 2) =~= Seq::<char>::empty());
            assert(scan_from(p, st) == scan_from(p.subrange(2, 2), apply_code(st, p[1])));
        } else {
            assert(p[0] == l[0]);
            assert(p[1] == l[1]);
            assert(p.subrange(2, p.len() as int) =~= l.subrange(2, l.len() as int).push(
                ESCAPE_CHAR,
            ));
            lemma_trailing_escape(l.subrange(2, l.len() as int), apply_code(st, l[1]));
        }
    } else {
        assert(p[0] == l[0]);
        assert(p.drop_first() =~= l.drop_first().push(ESCAPE_CHAR));
        lemma_trailing_escape(l.drop_first(), st);
    }
}

/// A line with no escape character passes through the scan unstyled: every
/// character of the trimmed line is emitted as itself, plain.
pub proof fn lemma_scan_no_escape(l: Seq<char>)
    requires
        absent(l, ESCAPE_CHAR),
    ensures
        scan_from(l, init_state()) == plain_fragments(l),
    decreases l.len(),
{
    if l.len() == 0 {
    } else {
        assert(l[0] != ESCAPE_CHAR);
        assert(absent(l.drop_first(), ESCAPE_CHAR));
        lemma_scan_no_escape(l.drop_first());
        assert(emit(init_state(), l[0]) == Fragment::Plain(l[0]));
    }
}

/// A raw line with no escape character is interpreted as its leading
/// whitespace stripped and every remaining character plain.
pub proof fn lemma_line_no_escape(l: Seq<char>)
    requires
        absent(l, ESCAPE_CHAR),
    ensures
        line_fragments(l) == plain_fragments(trim_start(l)),
{
    if l.len() >= 2 {
        assert(l[0] != ESCAPE_CHAR);
    }
    assert(preprocess(l) == trim_start(l));
    lemma_trim_absent(l, ESCAPE_CHAR);
    lemma_scan_no_escape(trim_start(l));
}

} // verus!
