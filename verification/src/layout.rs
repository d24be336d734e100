//! How written pieces turn into lines of text: the text each piece adds
//! under the indentation of the blocks open around it.
use vstd::prelude::*;
use crate::code::{
    indent_prefix, lemma_close_block_frames, lemma_put_text_frames, line_of, nl, put_char,
    put_text, run, step, Cursor, Layout, Piece,
};
use crate::laws::{balanced, low_depth, net_depth};

verus! {

/// Whether a line begins after writing `s`, where one began before iff
/// `at`.
pub open spec fn ends_line(s: Seq<char>, at: bool) -> bool {
    if s.len() == 0 {
        at
    } else {
        s.last() == '\n'
    }
}

/// The text that writing `s` adds under the indentation `p`, where a line
/// begins iff `at`: every character but a line break that begins a line
/// is preceded by `p`.
pub open spec fn lay(p: Seq<char>, s: Seq<char>, at: bool) -> Seq<char>
    decreases s.len(),
{
    if s.len() == 0 {
        Seq::empty()
    } else {
        let c = s.last();
        let before = lay(p, s.drop_last(), at);
        if c == '\n' {
            before.push('\n')
        } else if ends_line(s.drop_last(), at) {
            before + p.push(c)
        } else {
            before.push(c)
        }
    }
}

/// The text of a line `s` begun under the indentation `p`.
pub open spec fn laid_line(p: Seq<char>, s: Seq<char>) -> Seq<char> {
    lay(p, s + nl(), true)
}

/// The cursor moved on by text `t` under the same blocks, ready for a
/// new line.
pub open spec fn moved(cur: Cursor, t: Seq<char>) -> Cursor {
    Cursor { out: cur.out + t, frames: cur.frames, at_line_start: true }
}

/// Writing text adds its laid-out form.
pub proof fn lemma_put_text(cur: Cursor, s: Seq<char>)
    ensures
        put_text(cur, s) == (Cursor {
            out: cur.out + lay(indent_prefix(cur.frames), s, cur.at_line_start),
            frames: cur.frames,
            at_line_start: ends_line(s, cur.at_line_start),
        }),
    decreases s.len(),
{
    if s.len() > 0 {
        lemma_put_text(cur, s.drop_last());
        let p = indent_prefix(cur.frames);
        let before = lay(p, s.drop_last(), cur.at_line_start);
        let c = s.last();
        if c == '\n' {
            assert(cur.out + before.push('\n') =~= (cur.out + before).push('\n'));
        } else if ends_line(s.drop_last(), cur.at_line_start) {
            assert(cur.out + (before + p.push(c)) =~= (cur.out + before + p).push(c));
        } else {
            assert(cur.out + before.push(c) =~= (cur.out + before).push(c));
        }
    }
}

/// Laying out two texts one after the other.
pub proof fn lemma_lay_concat(p: Seq<char>, a: Seq<char>, b: Seq<char>, at: bool)
    ensures
        lay(p, a + b, at) == lay(p, a, at) + lay(p, b, ends_line(a, at)),
        ends_line(a + b, at) == ends_line(b, ends_line(a, at)),
    decreases b.len(),
{
    if b.len() == 0 {
        assert(a + b =~= a);
        assert(lay(p, a, at) + Seq::<char>::empty() =~= lay(p, a, at));
    } else {
        lemma_lay_concat(p, a, b.drop_last(), at);
        assert((a + b).drop_last() =~= a + b.drop_last());
        assert((a + b).last() == b.last());
        let x = lay(p, a, at);
        let y = lay(p, b.drop_last(), ends_line(a, at));
        let c = b.last();
        if c == '\n' {
            assert((x + y).push('\n') =~= x + y.push('\n'));
        } else if ends_line(b.drop_last(), ends_line(a, at)) {
            assert(x + y + p.push(c) =~= x + (y + p.push(c)));
        } else {
            assert((x + y).push(c) =~= x + y.push(c));
        }
    }
}

/// A text without line breaks, begun on a new line, is indented once; in
/// the middle of a line it is written as it is.
pub proof fn lemma_lay_plain(p: Seq<char>, s: Seq<char>, at: bool)
    requires
        forall|i: int| 0 <= i < s.len() ==> s[i] != '\n',
    ensures
        lay(p, s, at) == (if at && s.len() > 0 {
            p + s
        } else {
            s
        }),
        ends_line(s, at) == (at && s.len() == 0),
    decreases s.len(),
{
    if s.len() > 0 {
        let t = s.drop_last();
        assert forall|i: int| 0 <= i < t.len() implies t[i] != '\n' by {
            assert(t[i] == s[i]);
        }
        lemma_lay_plain(p, t, at);
        assert(s.last() == s[s.len() - 1]);
        if t.len() == 0 {
            assert(s =~= seq![s.last()]);
            assert(lay(p, t, at) =~= Seq::<char>::empty());
            if at {
                assert(Seq::<char>::empty() + p.push(s.last()) =~= p + s);
            } else {
                assert(Seq::<char>::empty().push(s.last()) =~= s);
            }
        } else if at {
            assert((p + t).push(s.last()) =~= p + s);
        } else {
            assert(t.push(s.last()) =~= s);
        }
    }
}

/// A line break adds itself, with no indentation.
pub proof fn lemma_lay_break(p: Seq<char>, at: bool)
    ensures
        lay(p, nl(), at) == nl(),
        ends_line(nl(), at),
{
    reveal_strlit("\n");
    assert(nl().len() == 1);
    assert(nl().last() == '\n');
    assert(nl().drop_last() =~= Seq::<char>::empty());
    assert(lay(p, nl().drop_last(), at) =~= Seq::<char>::empty());
    assert(Seq::<char>::empty().push('\n') =~= nl());
}

/// A line of text without line breaks is indented once and ended.
pub proof fn lemma_laid_line_plain(p: Seq<char>, s: Seq<char>)
    requires
        forall|i: int| 0 <= i < s.len() ==> s[i] != '\n',
    ensures
        laid_line(p, s) == (if s.len() > 0 {
            p + s
        } else {
            Seq::<char>::empty()
        }) + nl(),
{
    lemma_lay_concat(p, s, nl(), true);
    lemma_lay_plain(p, s, true);
    lemma_lay_break(p, ends_line(s, true));
}

/// Under no indentation, text is written as it is.
pub proof fn lemma_lay_no_indent(s: Seq<char>, at: bool)
    ensures
        lay(Seq::empty(), s, at) == s,
    decreases s.len(),
{
    if s.len() > 0 {
        lemma_lay_no_indent(s.drop_last(), at);
        assert(s.drop_last().push(s.last()) =~= s);
        assert(s.drop_last() + Seq::<char>::empty().push(s.last()) =~= s);
    }
}

/// Pieces written one after the other.
pub proof fn lemma_run_concat(cur: Cursor, ps: Seq<Piece>, qs: Seq<Piece>)
    ensures
        run(cur, ps + qs) == run(run(cur, ps), qs),
    decreases qs.len(),
{
    if qs.len() == 0 {
        assert(ps + qs =~= ps);
    } else {
        assert((ps + qs).drop_last() =~= ps + qs.drop_last());
        assert((ps + qs).last() == qs.last());
        lemma_run_concat(cur, ps, qs.drop_last());
    }
}

/// A single piece.
pub proof fn lemma_run_one(cur: Cursor, p: Piece)
    ensures
        run(cur, seq![p]) == step(cur, p),
{
    assert(seq![p].drop_last() =~= Seq::<Piece>::empty());
    assert(run(cur, Seq::<Piece>::empty()) == cur);
    assert(seq![p].last() == p);
}

/// A line written where a line begins.
pub proof fn lemma_run_line(cur: Cursor, s: Seq<char>)
    requires
        cur.at_line_start,
    ensures
        run(cur, line_of(s)) == moved(cur, laid_line(indent_prefix(cur.frames), s)),
{
    let p = indent_prefix(cur.frames);
    assert(line_of(s) =~= seq![Piece::Text(s)] + seq![Piece::Text(nl())]);
    lemma_run_concat(cur, seq![Piece::Text(s)], seq![Piece::Text(nl())]);
    lemma_run_one(cur, Piece::Text(s));
    lemma_put_text(cur, s);
    let c1 = put_text(cur, s);
    lemma_run_one(c1, Piece::Text(nl()));
    lemma_put_text(c1, nl());
    lemma_lay_concat(p, s, nl(), true);
    lemma_lay_break(p, ends_line(s, true));
    assert(cur.out + lay(p, s, true) + lay(p, nl(), ends_line(s, true)) =~= cur.out + laid_line(p, s));
}

/// A blank line written where a line begins.
pub proof fn lemma_run_break(cur: Cursor)
    ensures
        run(cur, seq![Piece::Text(nl())]) == moved(cur, nl()),
{
    lemma_run_one(cur, Piece::Text(nl()));
    lemma_put_text(cur, nl());
    lemma_lay_break(indent_prefix(cur.frames), cur.at_line_start);
}

/// The indentation inside one more block.
pub proof fn lemma_indent_push(frames: Seq<Layout>, l: Layout)
    ensures
        indent_prefix(frames.push(l)) == indent_prefix(frames) + l.indent,
{
    assert(frames.push(l).drop_last() =~= frames);
}

/// A block with a leading line, opened where a line begins.
pub proof fn lemma_run_open_leading(cur: Cursor, l: Layout)
    requires
        cur.at_line_start,
        l.leading is Some,
    ensures
        run(cur, seq![Piece::Open(l)]) == (Cursor {
            out: cur.out + laid_line(indent_prefix(cur.frames), l.leading->0),
            frames: cur.frames.push(l),
            at_line_start: true,
        }),
{
    let t = l.leading->0;
    let p = indent_prefix(cur.frames);
    lemma_run_one(cur, Piece::Open(l));
    lemma_put_text(cur, t);
    let c1 = put_text(cur, t);
    assert(put_char(c1, '\n').out == c1.out.push('\n'));
    lemma_lay_concat(p, t, nl(), true);
    lemma_lay_break(p, ends_line(t, true));
    reveal_strlit("\n");
    assert(nl() =~= seq!['\n']);
    assert(c1.out.push('\n') =~= cur.out + laid_line(p, t));
}

/// A block without leading text.
pub proof fn lemma_run_open_plain(cur: Cursor, l: Layout)
    requires
        l.leading is None,
    ensures
        run(cur, seq![Piece::Open(l)]) == (Cursor {
            out: cur.out,
            frames: cur.frames.push(l),
            at_line_start: cur.at_line_start,
        }),
{
    lemma_run_one(cur, Piece::Open(l));
}

/// Closing a block that ends with a trailing line, where a line begins.
pub proof fn lemma_run_close_trailing(cur: Cursor)
    requires
        cur.at_line_start,
        cur.frames.len() > 0,
        cur.frames.last().trailing is Some,
        cur.frames.last().trailing_newline,
    ensures
        run(cur, seq![Piece::Close]) == (Cursor {
            out: cur.out + laid_line(indent_prefix(cur.frames.drop_last()), cur.frames.last().trailing->0),
            frames: cur.frames.drop_last(),
            at_line_start: true,
        }),
{
    let t = cur.frames.last().trailing->0;
    let c1 = Cursor { out: cur.out, frames: cur.frames.drop_last(), at_line_start: cur.at_line_start };
    let p = indent_prefix(c1.frames);
    lemma_run_one(cur, Piece::Close);
    lemma_put_text(c1, t);
    let c2 = put_text(c1, t);
    lemma_lay_concat(p, t, nl(), true);
    lemma_lay_break(p, ends_line(t, true));
    reveal_strlit("\n");
    assert(nl() =~= seq!['\n']);
    assert(c2.out.push('\n') =~= cur.out + laid_line(p, t));
}

/// Closing a block without trailing text.
pub proof fn lemma_run_close_plain(cur: Cursor)
    requires
        cur.frames.len() > 0,
        cur.frames.last().trailing is None,
    ensures
        run(cur, seq![Piece::Close]) == (Cursor {
            out: cur.out,
            frames: cur.frames.drop_last(),
            at_line_start: cur.at_line_start,
        }),
{
    lemma_run_one(cur, Piece::Close);
}

// ---------------------------------------------------------------------------
// Sections: what pieces add, wherever they are written
// ---------------------------------------------------------------------------

/// The text that pieces add when written under the blocks `frames`, where
/// a line begins iff `at`.
pub open spec fn section(frames: Seq<Layout>, at: bool, ps: Seq<Piece>) -> Seq<char> {
    run(Cursor { out: Seq::empty(), frames, at_line_start: at }, ps).out
}

/// Whether a line begins after the pieces, written as for `section`.
pub open spec fn section_ends_line(frames: Seq<Layout>, at: bool, ps: Seq<Piece>) -> bool {
    run(Cursor { out: Seq::empty(), frames, at_line_start: at }, ps).at_line_start
}

proof fn lemma_put_char_shift(o: Seq<char>, d: Cursor, c: char)
    ensures
        put_char(Cursor { out: o + d.out, ..d }, c) == (Cursor { out: o + put_char(d, c).out, ..put_char(d, c) }),
{
    let e = Cursor { out: o + d.out, ..d };
    if c == '\n' {
        assert((o + d.out).push('\n') =~= o + d.out.push('\n'));
    } else if d.at_line_start {
        assert((o + d.out + indent_prefix(d.frames)).push(c) =~= o + (d.out + indent_prefix(d.frames)).push(c));
    } else {
        assert((o + d.out).push(c) =~= o + d.out.push(c));
    }
}

proof fn lemma_put_text_shift(o: Seq<char>, d: Cursor, s: Seq<char>)
    ensures
        put_text(Cursor { out: o + d.out, ..d }, s) == (Cursor { out: o + put_text(d, s).out, ..put_text(d, s) }),
{
    lemma_put_text(Cursor { out: o + d.out, ..d }, s);
    lemma_put_text(d, s);
    assert(o + d.out + lay(indent_prefix(d.frames), s, d.at_line_start) =~= o + (d.out + lay(
        indent_prefix(d.frames),
        s,
        d.at_line_start,
    )));
}

proof fn lemma_step_shift(o: Seq<char>, d: Cursor, p: Piece)
    ensures
        step(Cursor { out: o + d.out, ..d }, p) == (Cursor { out: o + step(d, p).out, ..step(d, p) }),
{
    let e = Cursor { out: o + d.out, ..d };
    match p {
        Piece::Text(s) => lemma_put_text_shift(o, d, s),
        Piece::Open(l) => {
            match l.leading {
                Some(t) => {
                    lemma_put_text_shift(o, d, t);
                    lemma_put_char_shift(o, put_text(d, t), '\n');
                },
                None => {},
            }
        },
        Piece::Close => {
            if d.frames.len() > 0 {
                let l = d.frames.last();
                let d1 = Cursor { out: d.out, frames: d.frames.drop_last(), at_line_start: d.at_line_start };
                match l.trailing {
                    Some(t) => {
                        lemma_put_text_shift(o, d1, t);
                        lemma_put_char_shift(o, put_text(d1, t), '\n');
                    },
                    None => {},
                }
            }
        },
    }
}

/// What was written before does not change what pieces add.
pub proof fn lemma_run_shift(o: Seq<char>, d: Cursor, ps: Seq<Piece>)
    ensures
        run(Cursor { out: o + d.out, ..d }, ps) == (Cursor { out: o + run(d, ps).out, ..run(d, ps) }),
    decreases ps.len(),
{
    if ps.len() > 0 {
        lemma_run_shift(o, d, ps.drop_last());
        lemma_step_shift(o, run(d, ps.drop_last()), ps.last());
    }
}

/// Pieces written at a cursor add their section.
pub proof fn lemma_run_section(cur: Cursor, ps: Seq<Piece>)
    ensures
        run(cur, ps) == (Cursor {
            out: cur.out + section(cur.frames, cur.at_line_start, ps),
            frames: run(cur, ps).frames,
            at_line_start: section_ends_line(cur.frames, cur.at_line_start, ps),
        }),
{
    let d = Cursor { out: Seq::empty(), frames: cur.frames, at_line_start: cur.at_line_start };
    lemma_run_shift(cur.out, d, ps);
    assert(cur.out + d.out =~= cur.out);
    assert(Cursor { out: cur.out + d.out, ..d } == cur);
}

/// Pieces that never close a block opened before them keep those blocks
/// open, and leave as many more as they open and do not close.
pub proof fn lemma_run_frames(cur: Cursor, ps: Seq<Piece>)
    requires
        low_depth(ps) >= 0,
    ensures
        run(cur, ps).frames.len() == cur.frames.len() + net_depth(ps),
        run(cur, ps).frames.subrange(0, cur.frames.len() as int) == cur.frames,
    decreases ps.len(),
{
    if ps.len() > 0 {
        let t = ps.drop_last();
        assert(low_depth(t) >= low_depth(ps));
        lemma_run_frames(cur, t);
        let c = run(cur, t);
        let n = cur.frames.len() as int;
        match ps.last() {
            Piece::Text(s) => lemma_put_text_frames(c, s),
            Piece::Open(l) => {
                let c1 = match l.leading {
                    Some(x) => {
                        lemma_put_text_frames(c, x);
                        put_char(put_text(c, x), '\n')
                    },
                    None => c,
                };
                assert(c1.frames == c.frames);
                assert(c.frames.push(l).subrange(0, n) =~= c.frames.subrange(0, n));
            },
            Piece::Close => {
                assert(net_depth(ps) >= low_depth(ps));
                lemma_close_block_frames(c);
                assert(c.frames.drop_last().subrange(0, n) =~= c.frames.subrange(0, n));
            },
        }
    }
}

/// Balanced pieces leave the blocks as they found them.
pub proof fn lemma_run_balanced(cur: Cursor, ps: Seq<Piece>)
    requires
        balanced(ps),
    ensures
        run(cur, ps).frames == cur.frames,
{
    lemma_run_frames(cur, ps);
    assert(run(cur, ps).frames =~= run(cur, ps).frames.subrange(0, cur.frames.len() as int));
}

/// Pieces whose last piece is a text ending a line leave a line begun.
pub proof fn lemma_run_ends_line(cur: Cursor, ps: Seq<Piece>)
    requires
        ps.len() > 0,
        ps.last() matches Piece::Text(t) && t.len() > 0 && t.last() == '\n',
    ensures
        run(cur, ps).at_line_start,
{
    let c = run(cur, ps.drop_last());
    match ps.last() {
        Piece::Text(t) => lemma_put_text(c, t),
        _ => {},
    }
}

} // verus!
