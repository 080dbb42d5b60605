//! Rendering interpreted fragments back into one terminal-ready string.
//!
//! Characters that carry no color pass through verbatim, so on markup-free
//! input the whole pipeline is exactly "strip each line's leading
//! whitespace"; that is stated and proved here. Styled fragments go through
//! the `colored` backend, whose printed form depends on the terminal.

use vstd::prelude::*;
use vstd::string::StringExecFns;
use crate::ansi;
use crate::codes::ESCAPE_CHAR;
use crate::interp::{line_fragments, plain_fragments, plain_of, interpret_line,
    lemma_line_no_escape};
use crate::style::Fragment;
use crate::text::{absent, lines_of, trim_start, strip_cr, split_newlines, split_lines, to_chars,
    join_lines, lemma_lines_absent, lemma_split_newlines_absent, lemma_join_push,
    lemma_join_split};

verus! {

/// The character a fragment shows: the literal character of a plain
/// fragment, or the styled character (already the placeholder, under
/// obfuscation) of a styled one.
pub open spec fn fragment_char(f: Fragment) -> char {
    match f {
        Fragment::Plain(c) => c,
        Fragment::Styled { ch, .. } => ch,
    }
}

/// Every fragment of `fs` is plain.
pub open spec fn all_plain(fs: Seq<Fragment>) -> bool {
    forall|i: int| 0 <= i < fs.len() ==> #[trigger] fs[i] is Plain
}

/// The characters the fragments of `fs` show, in order.
pub open spec fn plain_chars(fs: Seq<Fragment>) -> Seq<char>
    decreases fs.len(),
{
    if fs.len() == 0 {
        Seq::<char>::empty()
    } else {
        seq![fragment_char(fs[0])] + plain_chars(fs.drop_first())
    }
}

/// No line of `s` produces a styled fragment.
pub open spec fn fully_plain(s: Seq<char>) -> bool {
    forall|i: int| 0 <= i < lines_of(s).len() ==> all_plain(
        line_fragments(#[trigger] lines_of(s)[i]),
    )
}

/// The lines of `s`, interpreted, with each line reduced to the characters
/// its fragments show.
pub open spec fn shown_lines(s: Seq<char>) -> Seq<Seq<char>> {
    lines_of(s).map_values(|l: Seq<char>| plain_chars(line_fragments(l)))
}

/// The lines of `s` with their leading whitespace stripped.
pub open spec fn trimmed_lines(s: Seq<char>) -> Seq<Seq<char>> {
    lines_of(s).map_values(|l: Seq<char>| trim_start(l))
}

/// Appending one fragment appends its shown character.
pub proof fn lemma_plain_chars_push(fs: Seq<Fragment>, f: Fragment)
    ensures
        plain_chars(fs.push(f)) == plain_chars(fs) + seq![fragment_char(f)],
    decreases fs.len(),
{
    if fs.len() == 0 {
        assert(fs.push(f) =~= seq![f]);
        assert(seq![f].len() == 1 && seq![f][0] == f);
        assert(seq![f].drop_first() =~= Seq::<Fragment>::empty());
        assert(plain_chars(seq![f]) == seq![fragment_char(f)] + plain_chars(
            Seq::<Fragment>::empty(),
        ));
        assert(plain_chars(fs) + seq![fragment_char(f)] =~= seq![fragment_char(f)]);
        assert(seq![fragment_char(f)] + Seq::<char>::empty() =~= seq![fragment_char(f)]);
    } else {
        assert(fs.push(f)[0] == fs[0]);
        assert(fs.push(f).drop_first() =~= fs.drop_first().push(f));
        lemma_plain_chars_push(fs.drop_first(), f);
        assert(seq![fragment_char(fs[0])] + (plain_chars(fs.drop_first()) + seq![
            fragment_char(f),
        ]) =~= (seq![fragment_char(fs[0])] + plain_chars(fs.drop_first())) + seq![
            fragment_char(f),
        ]);
    }
}

/// A line of plain fragments shows exactly its characters, and is all plain.
pub proof fn lemma_plain_fragments_shown(l: Seq<char>)
    ensures
        all_plain(plain_fragments(l)),
        plain_chars(plain_fragments(l)) == l,
    decreases l.len(),
{
    if l.len() == 0 {
        assert(l =~= Seq::<char>::empty());
    } else {
        lemma_plain_fragments_shown(l.drop_first());
        let p = plain_fragments(l);
        assert(p == seq![plain_of(l[0])] + plain_fragments(l.drop_first()));
        assert(p[0] == Fragment::Plain(l[0]));
        assert(p.drop_first() =~= plain_fragments(l.drop_first()));
        assert forall|i: int| 0 <= i < p.len() implies #[trigger] p[i] is Plain by {
            if i > 0 {
                assert(p[i] == plain_fragments(l.drop_first())[i - 1]);
            }
        }
        assert(seq![l[0]] + l.drop_first() =~= l);
    }
}

/// Render one fragment: a plain fragment is its character verbatim; a
/// styled one goes through the true-color backend with its attributes added.
pub fn render_fragment(f: &Fragment) -> (r: String)
    ensures
        *f matches Fragment::Plain(c) ==> r@ == seq![c],
{
    match f {
        Fragment::Plain(c) => ansi::char_to_string(*c),
        Fragment::Styled { ch, color, bold, strikethrough, underline, italic } => {
            let mut cs = ansi::truecolor_char(*ch, color.r, color.g, color.b);
            if *bold {
                cs = ansi::style_bold(cs);
            }
            if *strikethrough {
                cs = ansi::style_strikethrough(cs);
            }
            if *underline {
                cs = ansi::style_underline(cs);
            }
            if *italic {
                cs = ansi::style_italic(cs);
            }
            ansi::colored_to_string(cs)
        },
    }
}

/// Render one line's fragments in order; a line of plain fragments renders
/// as exactly its characters.
pub fn render_line(fs: &Vec<Fragment>) -> (r: String)
    ensures
        all_plain(fs@) ==> r@ == plain_chars(fs@),
{
    let mut out = String::new();
    let mut i: usize = 0;
    proof {
        assert(fs@.subrange(0, 0) =~= Seq::<Fragment>::empty());
    }
    while i < fs.len()
        invariant
            i <= fs@.len(),
            all_plain(fs@.subrange(0, i as int)) ==> out@ == plain_chars(
                fs@.subrange(0, i as int),
            ),
        decreases fs@.len() - i,
    {
        let piece = render_fragment(&fs[i]);
        proof {
            let pre = fs@.subrange(0, i as int);
            let post = fs@.subrange(0, i + 1 as int);
            assert(post =~= pre.push(fs@[i as int]));
            if all_plain(post) {
                assert(post[i as int] == fs@[i as int]);
                assert(fs@[i as int] is Plain);
                assert forall|j: int| 0 <= j < pre.len() implies #[trigger] pre[j] is Plain by {
                    assert(pre[j] == post[j]);
                }
                lemma_plain_chars_push(pre, fs@[i as int]);
            }
        }
        out.append(piece.as_str());
        i = i + 1;
    }
    proof {
        assert(fs@.subrange(0, fs@.len() as int) =~= fs@);
    }
    out
}

/// Interpret and render a whole description: split into lines, interpret
/// each line from a fresh state, render its fragments, and rejoin with line
/// feeds. On input whose lines produce only plain fragments the result is
/// exactly those lines' shown characters rejoined.
pub fn mc_color(text: String) -> (r: String)
    ensures
        fully_plain(text@) ==> r@ == join_lines(shown_lines(text@)),
{
    let chars = to_chars(text.as_str());
    let lines = split_lines(&chars);
    let mut out = String::new();
    let mut k: usize = 0;
    proof {
        assert(shown_lines(text@).subrange(0, 0) =~= Seq::<Seq<char>>::empty());
    }
    while k < lines.len()
        invariant
            k <= lines@.len(),
            lines@.len() == lines_of(text@).len(),
            forall|i: int| 0 <= i < lines@.len() ==> #[trigger] lines@[i]@ == lines_of(text@)[i],
            (forall|j: int|
                0 <= j < k ==> all_plain(line_fragments(#[trigger] lines_of(text@)[j]))) ==> out@
                == join_lines(shown_lines(text@).subrange(0, k as int)),
        decreases lines@.len() - k,
    {
        let ghost out0 = out@;
        if k > 0 {
            let nl = ansi::char_to_string('\n');
            out.append(nl.as_str());
        }
        let frags = interpret_line(&lines[k]);
        let piece = render_line(&frags);
        out.append(piece.as_str());
        proof {
            let sl = shown_lines(text@);
            if forall|j: int|
                0 <= j < k + 1 ==> all_plain(line_fragments(#[trigger] lines_of(text@)[j])) {
                assert(forall|j: int|
                    0 <= j < k ==> all_plain(line_fragments(#[trigger] lines_of(text@)[j])));
                assert(out0 == join_lines(sl.subrange(0, k as int)));
                assert(all_plain(line_fragments(lines_of(text@)[k as int])));
                assert(frags@ == line_fragments(lines_of(text@)[k as int]));
                assert(piece@ == plain_chars(frags@));
                assert(sl[k as int] == plain_chars(line_fragments(lines_of(text@)[k as int])));
                assert(sl.subrange(0, k + 1 as int) =~= sl.subrange(0, k as int).push(
                    sl[k as int],
                ));
                lemma_join_push(sl.subrange(0, k as int), sl[k as int]);
                if k == 0 {
                    assert(out@ == piece@);
                } else {
                    assert(out@ == out0 + seq!['\n'] + piece@);
                }
            }
        }
        k = k + 1;
    }
    proof {
        assert(shown_lines(text@).subrange(0, lines@.len() as int) =~= shown_lines(text@));
    }
    out
}

/// On input with no escape character anywhere, interpreting and rendering
/// is exactly stripping each line's leading whitespace: every fragment is
/// plain and each line shows its trimmed self.
pub proof fn lemma_no_markup_passthrough(s: Seq<char>)
    requires
        absent(s, ESCAPE_CHAR),
    ensures
        fully_plain(s),
        join_lines(shown_lines(s)) == join_lines(trimmed_lines(s)),
{
    lemma_lines_absent(s, ESCAPE_CHAR);
    assert forall|i: int| 0 <= i < lines_of(s).len() implies all_plain(
        line_fragments(#[trigger] lines_of(s)[i]),
    ) && plain_chars(line_fragments(lines_of(s)[i])) == trim_start(lines_of(s)[i]) by {
        lemma_line_no_escape(lines_of(s)[i]);
        lemma_plain_fragments_shown(trim_start(lines_of(s)[i]));
    }
    assert(shown_lines(s) =~= trimmed_lines(s));
}

/// On input with no markup, no carriage returns, no final line feed and no
/// leading whitespace on any line, interpreting and rendering is the
/// identity.
pub proof fn lemma_round_trip_identity(s: Seq<char>)
    requires
        absent(s, ESCAPE_CHAR),
        absent(s, '\r'),
        s.len() > 0 ==> s[s.len() - 1] != '\n',
        forall|i: int|
            0 <= i < lines_of(s).len() ==> trim_start(#[trigger] lines_of(s)[i]) == lines_of(
                s,
            )[i],
    ensures
        fully_plain(s),
        join_lines(shown_lines(s)) == s,
{
    lemma_no_markup_passthrough(s);
    assert(trimmed_lines(s) =~= lines_of(s));
    if s.len() == 0 {
        assert(lines_of(s) =~= Seq::<Seq<char>>::empty());
    } else {
        let raw = split_newlines(s);
        crate::text::lemma_split_newlines_nonempty(s);
        lemma_split_newlines_absent(s, '\r');
        assert forall|i: int| 0 <= i < raw.len() implies #[trigger] strip_cr(raw[i]) == raw[i] by {
            if raw[i].len() > 0 {
                assert(raw[i][raw[i].len() - 1] != '\r');
            }
        }
        let stripped = raw.drop_last().map_values(|l: Seq<char>| strip_cr(l));
        assert(lines_of(s) == stripped.push(raw.last()));
        assert forall|i: int| 0 <= i < stripped.len() implies #[trigger] stripped[i] == raw[i] by {
            assert(raw.drop_last()[i] == raw[i]);
            assert(strip_cr(raw[i]) == raw[i]);
        }
        assert(lines_of(s) =~= raw);
        lemma_join_split(s);
    }
}

} // verus!
