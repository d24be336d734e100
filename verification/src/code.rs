//! A code buffer: a sequence of text pieces and nested, indented blocks,
//! rendered into source text once it is complete.
//!
//! Writing and layout are kept apart. Writers append pieces (text, the
//! opening of an indented block, its closing); `render` lays the pieces out,
//! prefixing every line begun inside blocks with the blocks' indentation and
//! writing each block's leading and trailing lines.
use vstd::prelude::*;
use crate::text::{chars_of, owned, push_char};

verus! {

/// How a nested block is laid out.
pub struct IndentOptions {
    /// Added to the indentation of every line begun inside the block.
    pub indent: String,
    /// Written, followed by a line break, where the block opens.
    pub leading: Option<String>,
    /// Written where the block closes, at the enclosing indentation.
    pub trailing: Option<String>,
    /// Whether a line break follows the trailing text.
    pub trailing_newline: bool,
}

/// The model of `IndentOptions`.
pub struct Layout {
    pub indent: Seq<char>,
    pub leading: Option<Seq<char>>,
    pub trailing: Option<Seq<char>>,
    pub trailing_newline: bool,
}

/// The model of an optional string.
pub open spec fn opt_view(o: Option<String>) -> Option<Seq<char>> {
    match o {
        Some(s) => Some(s@),
        None => None,
    }
}

impl View for IndentOptions {
    type V = Layout;

    open spec fn view(&self) -> Layout {
        Layout {
            indent: self.indent@,
            leading: opt_view(self.leading),
            trailing: opt_view(self.trailing),
            trailing_newline: self.trailing_newline,
        }
    }
}

/// One piece written into a buffer.
pub enum Chunk {
    Text(String),
    Open(IndentOptions),
    Close,
}

/// The model of a `Chunk`.
pub enum Piece {
    Text(Seq<char>),
    Open(Layout),
    Close,
}

impl View for Chunk {
    type V = Piece;

    open spec fn view(&self) -> Piece {
        match self {
            Chunk::Text(s) => Piece::Text(s@),
            Chunk::Open(o) => Piece::Open(o@),
            Chunk::Close => Piece::Close,
        }
    }
}

/// A buffer of code pieces. Its model is the sequence of pieces written so
/// far.
pub struct CodeBuffer {
    chunks: Vec<Chunk>,
}

impl View for CodeBuffer {
    type V = Seq<Piece>;

    closed spec fn view(&self) -> Seq<Piece> {
        self.chunks@.map_values(|c: Chunk| c@)
    }
}

/// The line break.
pub open spec fn nl() -> Seq<char> {
    "\n"@
}

/// The pieces of `text` followed by a line break.
pub open spec fn line_of(s: Seq<char>) -> Seq<Piece> {
    seq![Piece::Text(s), Piece::Text(nl())]
}

/// The layout of a block that only indents.
pub open spec fn plain_layout(indent: Seq<char>) -> Layout {
    Layout { indent, leading: None, trailing: None, trailing_newline: false }
}

// ---------------------------------------------------------------------------
// Layout model
// ---------------------------------------------------------------------------

/// Where rendering stands: the text so far, the open blocks, and whether
/// the next character begins a line.
pub struct Cursor {
    pub out: Seq<char>,
    pub frames: Seq<Layout>,
    pub at_line_start: bool,
}

/// The indentation of the open blocks, outermost first.
pub open spec fn indent_prefix(frames: Seq<Layout>) -> Seq<char>
    decreases frames.len(),
{
    if frames.len() == 0 {
        Seq::empty()
    } else {
        indent_prefix(frames.drop_last()) + frames.last().indent
    }
}

/// Writes one character: a line break ends the line; any other character
/// that begins a line is preceded by the indentation.
pub open spec fn put_char(cur: Cursor, c: char) -> Cursor {
    if c == '\n' {
        Cursor { out: cur.out.push('\n'), frames: cur.frames, at_line_start: true }
    } else if cur.at_line_start {
        Cursor {
            out: (cur.out + indent_prefix(cur.frames)).push(c),
            frames: cur.frames,
            at_line_start: false,
        }
    } else {
        Cursor { out: cur.out.push(c), frames: cur.frames, at_line_start: false }
    }
}

/// Writes a text, character by character.
pub open spec fn put_text(cur: Cursor, s: Seq<char>) -> Cursor
    decreases s.len(),
{
    if s.len() == 0 {
        cur
    } else {
        put_char(put_text(cur, s.drop_last()), s.last())
    }
}

/// Opens a block: its leading text and a line break, then its indentation
/// applies.
pub open spec fn open_block(cur: Cursor, l: Layout) -> Cursor {
    let c1 = match l.leading {
        Some(t) => put_char(put_text(cur, t), '\n'),
        None => cur,
    };
    Cursor { out: c1.out, frames: c1.frames.push(l), at_line_start: c1.at_line_start }
}

/// Closes the innermost block: its trailing text (and line break) at the
/// enclosing indentation. With no open block nothing happens.
pub open spec fn close_block(cur: Cursor) -> Cursor {
    if cur.frames.len() == 0 {
        cur
    } else {
        let l = cur.frames.last();
        let c1 = Cursor { out: cur.out, frames: cur.frames.drop_last(), at_line_start: cur.at_line_start };
        match l.trailing {
            Some(t) => {
                let c2 = put_text(c1, t);
                if l.trailing_newline {
                    put_char(c2, '\n')
                } else {
                    c2
                }
            },
            None => c1,
        }
    }
}

/// The effect of one piece.
pub open spec fn step(cur: Cursor, p: Piece) -> Cursor {
    match p {
        Piece::Text(s) => put_text(cur, s),
        Piece::Open(l) => open_block(cur, l),
        Piece::Close => close_block(cur),
    }
}

/// The effect of pieces in order.
pub open spec fn run(cur: Cursor, ps: Seq<Piece>) -> Cursor
    decreases ps.len(),
{
    if ps.len() == 0 {
        cur
    } else {
        step(run(cur, ps.drop_last()), ps.last())
    }
}

/// Closes every open block, innermost first.
pub open spec fn close_all(cur: Cursor) -> Cursor
    decreases cur.frames.len(),
{
    if cur.frames.len() == 0 {
        cur
    } else {
        proof {
            lemma_close_block_frames(cur);
        }
        close_all(close_block(cur))
    }
}

/// Writing text leaves the open blocks as they are.
pub proof fn lemma_put_text_frames(cur: Cursor, s: Seq<char>)
    ensures
        put_text(cur, s).frames == cur.frames,
    decreases s.len(),
{
    if s.len() > 0 {
        lemma_put_text_frames(cur, s.drop_last());
    }
}

/// Closing a block removes exactly the innermost one.
pub proof fn lemma_close_block_frames(cur: Cursor)
    requires
        cur.frames.len() > 0,
    ensures
        close_block(cur).frames == cur.frames.drop_last(),
{
    let c1 = Cursor { out: cur.out, frames: cur.frames.drop_last(), at_line_start: cur.at_line_start };
    match cur.frames.last().trailing {
        Some(t) => lemma_put_text_frames(c1, t),
        None => {},
    }
}

/// The cursor before anything is written.
pub open spec fn start() -> Cursor {
    Cursor { out: Seq::empty(), frames: Seq::empty(), at_line_start: true }
}

/// The text that a sequence of pieces renders to; blocks still open at the
/// end are closed.
pub open spec fn rendered(ps: Seq<Piece>) -> Seq<char> {
    close_all(run(start(), ps)).out
}

/// The layout of the block opened by a piece.
pub open spec fn layout_of(p: Piece) -> Layout {
    match p {
        Piece::Open(l) => l,
        _ => plain_layout(Seq::empty()),
    }
}

/// The layouts of the blocks whose opening pieces stand at `idx`.
pub open spec fn frames_at(ps: Seq<Piece>, idx: Seq<usize>) -> Seq<Layout> {
    idx.map_values(|i: usize| layout_of(ps[i as int]))
}

// ---------------------------------------------------------------------------
// Writing
// ---------------------------------------------------------------------------

impl CodeBuffer {
    /// An empty buffer.
    pub fn new() -> (b: CodeBuffer)
        ensures
            b@ == Seq::<Piece>::empty(),
    {
        let b = CodeBuffer { chunks: Vec::new() };
        assert(b@ =~= Seq::<Piece>::empty());
        b
    }

    fn push(&mut self, c: Chunk)
        ensures
            final(self)@ == old(self)@.push(c@),
    {
        self.chunks.push(c);
        assert(self@ =~= old(self)@.push(c@));
    }

    /// Writes text without ending the line.
    pub fn text(&mut self, s: &str)
        ensures
            final(self)@ == old(self)@.push(Piece::Text(s@)),
    {
        self.push(Chunk::Text(owned(s)));
    }

    /// Writes a line: the text, then a line break.
    pub fn line(&mut self, s: &str)
        ensures
            final(self)@ == old(self)@ + line_of(s@),
    {
        self.push(Chunk::Text(owned(s)));
        self.push(Chunk::Text(owned("\n")));
        assert(final(self)@ =~= old(self)@ + line_of(s@));
    }

    /// Ends the line.
    pub fn newline(&mut self)
        ensures
            final(self)@ == old(self)@.push(Piece::Text(nl())),
    {
        self.push(Chunk::Text(owned("\n")));
    }

    /// Opens a nested block laid out as `options` says.
    pub fn indent_with_options(&mut self, options: IndentOptions)
        ensures
            final(self)@ == old(self)@.push(Piece::Open(options@)),
    {
        self.push(Chunk::Open(options));
    }

    /// Opens a nested block that only adds indentation.
    pub fn indent(&mut self, indent: &str)
        ensures
            final(self)@ == old(self)@.push(Piece::Open(plain_layout(indent@))),
    {
        self.push(Chunk::Open(IndentOptions { indent: owned(indent), leading: None, trailing: None, trailing_newline: false }));
    }

    /// Closes the innermost open block.
    pub fn close(&mut self)
        ensures
            final(self)@ == old(self)@.push(Piece::Close),
    {
        self.push(Chunk::Close);
    }
}

// ---------------------------------------------------------------------------
// Rendering
// ---------------------------------------------------------------------------

/// The state of rendering: the text so far, the positions of the pieces
/// that opened the blocks still open, and whether a line has just ended.
struct Renderer {
    out: String,
    frames: Vec<usize>,
    at_line_start: bool,
}

impl Renderer {
    /// The cursor this state stands for, over the pieces `ps`.
    spec fn cursor(&self, ps: Seq<Piece>) -> Cursor {
        Cursor { out: self.out@, frames: frames_at(ps, self.frames@), at_line_start: self.at_line_start }
    }
}

impl CodeBuffer {
    /// Every position names an opening piece of this buffer.
    spec fn frames_ok(&self, frames: Seq<usize>) -> bool {
        forall|k: int| 0 <= k < frames.len() ==> #[trigger] frames[k] < self.chunks@.len() && self.chunks@[frames[k] as int] is Open
    }

    proof fn lemma_view(&self, i: int)
        requires
            0 <= i < self.chunks@.len(),
        ensures
            self@[i] == self.chunks@[i]@,
            self@.len() == self.chunks@.len(),
    {
    }

    /// Writes the indentation of the open blocks.
    fn write_prefix(&self, out: &mut String, frames: &Vec<usize>)
        requires
            self.frames_ok(frames@),
        ensures
            final(out)@ == old(out)@ + indent_prefix(frames_at(self@, frames@)),
    {
        let mut k: usize = 0;
        while k < frames.len()
            invariant
                self.frames_ok(frames@),
                k <= frames.len(),
                out@ == old(out)@ + indent_prefix(frames_at(self@, frames@.take(k as int))),
            decreases frames.len() - k,
        {
            let i = frames[k];
            assert(self.frames_ok(frames@));
            assert(frames@[k as int] < self.chunks@.len());
            proof { self.lemma_view(i as int); }
            assert(frames_at(self@, frames@.take(k + 1)).drop_last() =~= frames_at(self@, frames@.take(k as int)));
            match &self.chunks[i] {
                Chunk::Open(o) => {
                    out.append(o.indent.as_str());
                },
                _ => {},
            }
            k = k + 1;
        }
        assert(frames@.take(frames.len() as int) =~= frames@);
    }

    /// Writes one character.
    fn put_char(&self, r: &mut Renderer, c: char)
        requires
            self.frames_ok(old(r).frames@),
        ensures
            final(r).frames@ == old(r).frames@,
            final(r).cursor(self@) == put_char(old(r).cursor(self@), c),
    {
        if c == '\n' {
            push_char(&mut r.out, c);
            r.at_line_start = true;
        } else if r.at_line_start {
            self.write_prefix(&mut r.out, &r.frames);
            push_char(&mut r.out, c);
            r.at_line_start = false;
        } else {
            push_char(&mut r.out, c);
        }
    }

    /// Writes a text.
    fn put_text(&self, r: &mut Renderer, s: &str)
        requires
            self.frames_ok(old(r).frames@),
        ensures
            final(r).frames@ == old(r).frames@,
            final(r).cursor(self@) == put_text(old(r).cursor(self@), s@),
    {
        let cs = chars_of(s);
        let mut i: usize = 0;
        while i < cs.len()
            invariant
                cs@ == s@,
                i <= cs.len(),
                r.frames@ == old(r).frames@,
                self.frames_ok(r.frames@),
                r.cursor(self@) == put_text(old(r).cursor(self@), cs@.take(i as int)),
            decreases cs.len() - i,
        {
            assert(cs@.take(i + 1).drop_last() =~= cs@.take(i as int));
            self.put_char(r, cs[i]);
            i = i + 1;
        }
        assert(cs@.take(cs.len() as int) =~= cs@);
    }

    /// Opens the block whose opening piece stands at `i`.
    fn open(&self, r: &mut Renderer, i: usize)
        requires
            self.frames_ok(old(r).frames@),
            i < self.chunks@.len(),
            self.chunks@[i as int] is Open,
        ensures
            self.frames_ok(final(r).frames@),
            final(r).cursor(self@) == open_block(old(r).cursor(self@), layout_of(self@[i as int])),
    {
        proof { self.lemma_view(i as int); }
        match &self.chunks[i] {
            Chunk::Open(o) => {
                match &o.leading {
                    Some(t) => {
                        self.put_text(r, t.as_str());
                        self.put_char(r, '\n');
                    },
                    None => {},
                }
            },
            _ => {},
        }
        let ghost before = r.frames@;
        r.frames.push(i);
        assert(frames_at(self@, r.frames@) =~= frames_at(self@, before).push(layout_of(self@[i as int])));
    }

    /// Closes the innermost open block, if any.
    fn close_one(&self, r: &mut Renderer)
        requires
            self.frames_ok(old(r).frames@),
        ensures
            self.frames_ok(final(r).frames@),
            old(r).frames@.len() > 0 ==> final(r).frames@.len() == old(r).frames@.len() - 1,
            final(r).cursor(self@) == close_block(old(r).cursor(self@)),
    {
        if r.frames.len() == 0 {
            return;
        }
        let ghost before = r.frames@;
        let i = r.frames.pop().unwrap();
        assert(before[before.len() - 1] == i);
        assert(frames_at(self@, r.frames@) =~= frames_at(self@, before).drop_last());
        proof { self.lemma_view(i as int); }
        match &self.chunks[i] {
            Chunk::Open(o) => {
                match &o.trailing {
                    Some(t) => {
                        self.put_text(r, t.as_str());
                        if o.trailing_newline {
                            self.put_char(r, '\n');
                        }
                    },
                    None => {},
                }
            },
            _ => {},
        }
    }

    /// The source text that the buffer holds: every piece laid out in
    /// order, and the blocks still open closed at the end.
    pub fn render(&self) -> (r: String)
        ensures
            r@ == rendered(self@),
    {
        let mut st = Renderer { out: String::new(), frames: Vec::new(), at_line_start: true };
        assert(frames_at(self@, st.frames@) =~= Seq::<Layout>::empty());
        assert(st.cursor(self@) == start());
        let mut i: usize = 0;
        while i < self.chunks.len()
            invariant
                i <= self.chunks@.len(),
                self.frames_ok(st.frames@),
                st.cursor(self@) == run(start(), self@.take(i as int)),
            decreases self.chunks.len() - i,
        {
            proof { self.lemma_view(i as int); }
            assert(self@.take(i + 1).drop_last() =~= self@.take(i as int));
            match &self.chunks[i] {
                Chunk::Text(s) => self.put_text(&mut st, s.as_str()),
                Chunk::Open(_) => self.open(&mut st, i),
                Chunk::Close => self.close_one(&mut st),
            }
            i = i + 1;
        }
        assert(self@.len() == self.chunks@.len());
        assert(self@.take(self.chunks@.len() as int) =~= self@);
        while st.frames.len() > 0
            invariant
                self.frames_ok(st.frames@),
                close_all(st.cursor(self@)) == close_all(run(start(), self@)),
            decreases st.frames.len(),
        {
            self.close_one(&mut st);
        }
        st.out
    }
}

} // verus!
