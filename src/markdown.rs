//! Markdown to display blocks. The outside parser turns the text into
//! events; the renderer here walks them as a state machine and decides what
//! is drawn: headings, paragraphs, code blocks, tables, list items, inline
//! code and `$`-delimited math, shown as emphasised text.

use pulldown_cmark::{html, CodeBlockKind, Event, Options, Parser, Tag};
use vstd::prelude::*;

use crate::content::texts;
use crate::text::has_char;

verus! {

broadcast use vstd::string::group_string_axioms;

/// The element kinds of a markdown document that the renderer tells apart.
#[derive(Clone, Debug, PartialEq, Eq)]
pub enum MdTag {
    Paragraph,
    /// A heading of level 1 to 6.
    Heading(u32),
    /// A code block, with the language of a fenced one.
    CodeBlock(Option<String>),
    List,
    Item,
    Table,
    TableHead,
    TableRow,
    TableCell,
    Other,
}

/// One event of a parsed markdown document.
#[derive(Clone, Debug, PartialEq, Eq)]
pub enum MdEvent {
    Start(MdTag),
    End(MdTag),
    Text(String),
    Code(String),
    Other,
}

/// A piece of a line that holds math: plain text, or the text between two `$`.
#[derive(Clone, Debug, PartialEq, Eq)]
pub enum Segment {
    Plain(String),
    Formula(String),
}

/// What is drawn, top to bottom.
#[derive(Clone, Debug, PartialEq, Eq)]
pub enum Block {
    /// A horizontal rule.
    Separator,
    /// Vertical space, in points.
    Space(u32),
    /// The fence line of a code block, in grey monospace.
    Fence(String),
    /// A line of code, in monospace on a shaded background.
    CodeLine(String),
    /// Code text that holds a `$`, in plain monospace.
    Mono(String),
    /// A heading of the given level with its text.
    Heading(u32, String),
    /// A paragraph of plain text.
    Label(String),
    /// An inline code span.
    InlineCode(String),
    /// A list item.
    Bullet(String),
    /// A line with math in it.
    Math(Vec<Segment>),
    /// A table: header cells and body rows.
    Table(Vec<String>, Vec<Vec<String>>),
}

/// An `MdTag` as characters.
pub enum MdTagView {
    Paragraph,
    Heading(u32),
    CodeBlock(Option<Seq<char>>),
    List,
    Item,
    Table,
    TableHead,
    TableRow,
    TableCell,
    Other,
}

/// An `MdEvent` as characters.
pub enum MdEventView {
    Start(MdTagView),
    End(MdTagView),
    Text(Seq<char>),
    Code(Seq<char>),
    Other,
}

impl View for MdTag {
    type V = MdTagView;

    open spec fn view(&self) -> MdTagView {
        match self {
            MdTag::Paragraph => MdTagView::Paragraph,
            MdTag::Heading(l) => MdTagView::Heading(*l),
            MdTag::CodeBlock(lang) => MdTagView::CodeBlock(
                match lang {
                    Some(l) => Some(l@),
                    None => None,
                },
            ),
            MdTag::List => MdTagView::List,
            MdTag::Item => MdTagView::Item,
            MdTag::Table => MdTagView::Table,
            MdTag::TableHead => MdTagView::TableHead,
            MdTag::TableRow => MdTagView::TableRow,
            MdTag::TableCell => MdTagView::TableCell,
            MdTag::Other => MdTagView::Other,
        }
    }
}

impl View for MdEvent {
    type V = MdEventView;

    open spec fn view(&self) -> MdEventView {
        match self {
            MdEvent::Start(t) => MdEventView::Start(t@),
            MdEvent::End(t) => MdEventView::End(t@),
            MdEvent::Text(s) => MdEventView::Text(s@),
            MdEvent::Code(s) => MdEventView::Code(s@),
            MdEvent::Other => MdEventView::Other,
        }
    }
}

/// The views of a sequence of events.
pub open spec fn event_views(s: Seq<MdEvent>) -> Seq<MdEventView> {
    s.map_values(|e: MdEvent| e@)
}

/// A `Segment` as characters.
pub enum SegmentView {
    Plain(Seq<char>),
    Formula(Seq<char>),
}

/// A `Block` as characters.
pub enum BlockView {
    Separator,
    Space(u32),
    Fence(Seq<char>),
    CodeLine(Seq<char>),
    Mono(Seq<char>),
    Heading(u32, Seq<char>),
    Label(Seq<char>),
    InlineCode(Seq<char>),
    Bullet(Seq<char>),
    Math(Seq<SegmentView>),
    Table(Seq<Seq<char>>, Seq<Seq<Seq<char>>>),
}

impl View for Segment {
    type V = SegmentView;

    open spec fn view(&self) -> SegmentView {
        match self {
            Segment::Plain(s) => SegmentView::Plain(s@),
            Segment::Formula(s) => SegmentView::Formula(s@),
        }
    }
}

/// The views of a sequence of segments.
pub open spec fn segment_views(s: Seq<Segment>) -> Seq<SegmentView> {
    s.map_values(|g: Segment| g@)
}

/// The views of the rows of a table.
pub open spec fn row_views(rows: Seq<Vec<String>>) -> Seq<Seq<Seq<char>>> {
    rows.map_values(|r: Vec<String>| texts(r@))
}

impl View for Block {
    type V = BlockView;

    open spec fn view(&self) -> BlockView {
        match self {
            Block::Separator => BlockView::Separator,
            Block::Space(n) => BlockView::Space(*n),
            Block::Fence(s) => BlockView::Fence(s@),
            Block::CodeLine(s) => BlockView::CodeLine(s@),
            Block::Mono(s) => BlockView::Mono(s@),
            Block::Heading(l, s) => BlockView::Heading(*l, s@),
            Block::Label(s) => BlockView::Label(s@),
            Block::InlineCode(s) => BlockView::InlineCode(s@),
            Block::Bullet(s) => BlockView::Bullet(s@),
            Block::Math(g) => BlockView::Math(segment_views(g@)),
            Block::Table(h, r) => BlockView::Table(texts(h@), row_views(r@)),
        }
    }
}

/// The views of a sequence of blocks.
pub open spec fn block_views(s: Seq<Block>) -> Seq<BlockView> {
    s.map_values(|b: Block| b@)
}

/// The pieces of `s` between its `$` signs: one more than there are signs.
pub open spec fn dollar_parts(s: Seq<char>) -> Seq<Seq<char>>
    decreases s.len(),
{
    if s.len() == 0 {
        seq![Seq::empty()]
    } else {
        let p = dollar_parts(s.drop_last());
        if s.last() == '$' {
            p.push(Seq::empty())
        } else {
            p.update(p.len() - 1, p.last().push(s.last()))
        }
    }
}

/// The `k`-th piece of a line: outside math where `k` is even, inside where odd.
pub open spec fn segment_of(k: nat, part: Seq<char>) -> SegmentView {
    if k % 2 == 0 {
        SegmentView::Plain(part)
    } else {
        SegmentView::Formula(part)
    }
}

/// The non-empty pieces of a line, each marked as plain text or math.
pub open spec fn segments_of(parts: Seq<Seq<char>>) -> Seq<SegmentView>
    decreases parts.len(),
{
    if parts.len() == 0 {
        Seq::empty()
    } else {
        let init = segments_of(parts.drop_last());
        if parts.last().len() == 0 {
            init
        } else {
            init.push(segment_of((parts.len() - 1) as nat, parts.last()))
        }
    }
}

/// The segments of a line with math in it.
pub open spec fn math_segments_of(s: Seq<char>) -> Seq<SegmentView> {
    segments_of(dollar_parts(s))
}

/// Splits a line at its `$` signs into plain and math segments, dropping
/// empty pieces.
pub fn math_segments(text: &str) -> (r: Vec<Segment>)
    ensures
        segment_views(r@) == math_segments_of(text@),
{
    let n = text.unicode_len();
    let mut segs: Vec<Segment> = Vec::new();
    let mut start: usize = 0;
    let mut i: usize = 0;
    let mut odd = false;
    let ghost mut done: Seq<Seq<char>> = Seq::empty();
    proof {
        assert(text@.subrange(0, 0) =~= Seq::<char>::empty());
        assert(dollar_parts(text@.subrange(0, 0)) =~= done.push(text@.subrange(0, 0)));
        assert(segment_views(segs@) =~= segments_of(done));
    }
    while i < n
        invariant
            n == text@.len(),
            start <= i <= n,
            dollar_parts(text@.subrange(0, i as int)) == done.push(
                text@.subrange(start as int, i as int),
            ),
            odd == (done.len() % 2 == 1),
            segment_views(segs@) == segments_of(done),
        decreases n - i,
    {
        let c = text.get_char(i);
        let ghost prefix = text@.subrange(0, i + 1);
        proof {
            assert(prefix.drop_last() =~= text@.subrange(0, i as int));
            assert(prefix.last() == c);
        }
        if c == '$' {
            let ghost part = text@.subrange(start as int, i as int);
            let ghost before = segs@;
            if start < i {
                let piece = text.substring_char(start, i).to_string();
                if odd {
                    segs.push(Segment::Formula(piece));
                } else {
                    segs.push(Segment::Plain(piece));
                }
                proof {
                    assert(segment_views(segs@) =~= segment_views(before).push(segs@.last()@));
                }
            }
            proof {
                let d2 = done.push(part);
                assert(d2.drop_last() =~= done);
                done = d2;
                assert(text@.subrange(i + 1, i + 1) =~= Seq::<char>::empty());
                assert(dollar_parts(prefix) =~= done.push(text@.subrange(i + 1, i + 1)));
            }
            odd = !odd;
            start = i + 1;
        } else {
            proof {
                let p = dollar_parts(text@.subrange(0, i as int));
                assert(dollar_parts(prefix) == p.update(p.len() - 1, p.last().push(c)));
                assert(p.last() == text@.subrange(start as int, i as int));
                assert(text@.subrange(start as int, i as int).push(c) =~= text@.subrange(
                    start as int,
                    i + 1,
                ));
                assert(dollar_parts(prefix) =~= done.push(text@.subrange(start as int, i + 1)));
            }
        }
        i = i + 1;
    }
    let ghost before = segs@;
    let ghost part = text@.subrange(start as int, n as int);
    if start < n {
        let piece = text.substring_char(start, n).to_string();
        if odd {
            segs.push(Segment::Formula(piece));
        } else {
            segs.push(Segment::Plain(piece));
        }
        proof {
            assert(segment_views(segs@) =~= segment_views(before).push(segs@.last()@));
        }
    }
    proof {
        assert(text@.subrange(0, n as int) =~= text@);
        let d2 = done.push(part);
        assert(d2.drop_last() =~= done);
    }
    segs
}


/// The fence line of a code block: three backquotes and the language, if any.
pub open spec fn fence_of(lang: Option<Seq<char>>) -> Seq<char> {
    match lang {
        Some(l) => "```"@ + l,
        None => "```"@,
    }
}

/// How a piece of text is drawn: code text that holds a `$` in plain
/// monospace; text without a `$` as a heading of the pending level, or as a
/// paragraph; other text as a line of math.
pub open spec fn text_block(text: Seq<char>, in_code: bool, heading: u32) -> BlockView {
    if in_code {
        BlockView::Mono(text)
    } else if !text.contains('$') {
        if heading > 0 {
            BlockView::Heading(heading, text)
        } else {
            BlockView::Label(text)
        }
    } else {
        BlockView::Math(math_segments_of(text))
    }
}

/// Draws a piece of text: in a code block it is plain monospace; text
/// without a `$` is a heading of level `heading` (where that is not 0) or
/// a paragraph; otherwise it is a line of plain and math segments.
pub fn render_text_with_math(text: &str, in_code: bool, heading: u32) -> (r: Block)
    ensures
        r@ == text_block(text@, in_code, heading),
{
    if in_code {
        Block::Mono(text.to_string())
    } else if !has_char(text, '$') {
        if heading > 0 {
            Block::Heading(heading, text.to_string())
        } else {
            Block::Label(text.to_string())
        }
    } else {
        Block::Math(math_segments(text))
    }
}

/// Where the renderer stands between two events.
pub struct RenderModel {
    /// The level of a heading whose text has not come yet, or 0.
    pub heading: u32,
    pub in_code: bool,
    pub in_table: bool,
    pub headers: Seq<Seq<char>>,
    pub row: Seq<Seq<char>>,
    pub rows: Seq<Seq<Seq<char>>>,
    /// Paragraph, cell or item text gathered so far.
    pub buffer: Seq<char>,
    /// What has been drawn so far.
    pub out: Seq<BlockView>,
}

/// The renderer before the first event.
pub open spec fn start_model() -> RenderModel {
    RenderModel {
        heading: 0,
        in_code: false,
        in_table: false,
        headers: Seq::empty(),
        row: Seq::empty(),
        rows: Seq::empty(),
        buffer: Seq::empty(),
        out: Seq::empty(),
    }
}

/// What the start of an element does.
pub open spec fn open_tag(m: RenderModel, t: MdTagView) -> RenderModel {
    match t {
        MdTagView::Heading(l) => RenderModel { heading: l, ..m },
        MdTagView::Paragraph => RenderModel { buffer: Seq::empty(), ..m },
        MdTagView::TableCell => RenderModel { buffer: Seq::empty(), ..m },
        MdTagView::Item => RenderModel { buffer: Seq::empty(), ..m },
        MdTagView::CodeBlock(lang) => RenderModel {
            in_code: true,
            out: m.out.push(BlockView::Separator).push(BlockView::Space(5)).push(
                BlockView::Fence(fence_of(lang)),
            ),
            ..m
        },
        MdTagView::Table => RenderModel {
            in_table: true,
            headers: Seq::empty(),
            rows: Seq::empty(),
            ..m
        },
        MdTagView::TableHead => RenderModel { headers: Seq::empty(), row: Seq::empty(), ..m },
        MdTagView::TableRow => RenderModel { row: Seq::empty(), ..m },
        MdTagView::List => RenderModel { out: m.out.push(BlockView::Space(5)), ..m },
        MdTagView::Other => m,
    }
}

/// What the end of an element does.
pub open spec fn close_tag(m: RenderModel, t: MdTagView) -> RenderModel {
    match t {
        MdTagView::CodeBlock(_) => RenderModel {
            in_code: false,
            out: m.out.push(BlockView::Fence("```"@)).push(BlockView::Separator).push(
                BlockView::Space(5),
            ),
            ..m
        },
        MdTagView::Paragraph => {
            let out = if m.buffer.len() > 0 {
                m.out.push(text_block(m.buffer, false, 0))
            } else {
                m.out
            };
            RenderModel { buffer: Seq::empty(), out: out.push(BlockView::Space(8)), ..m }
        },
        MdTagView::Heading(_) => RenderModel {
            out: m.out.push(BlockView::Space(5)).push(BlockView::Separator).push(
                BlockView::Space(5),
            ),
            ..m
        },
        MdTagView::TableCell => if m.in_table {
            RenderModel { row: m.row.push(m.buffer), buffer: Seq::empty(), ..m }
        } else {
            m
        },
        MdTagView::TableHead => if m.in_table {
            RenderModel { headers: m.row, row: Seq::empty(), ..m }
        } else {
            m
        },
        MdTagView::TableRow => if !m.in_table {
            m
        } else if m.headers.len() == 0 {
            RenderModel { headers: m.row, row: Seq::empty(), ..m }
        } else {
            RenderModel { rows: m.rows.push(m.row), row: Seq::empty(), ..m }
        },
        MdTagView::Table => if m.in_table {
            RenderModel {
                in_table: false,
                headers: Seq::empty(),
                rows: Seq::empty(),
                out: m.out.push(BlockView::Table(m.headers, m.rows)),
                ..m
            }
        } else {
            m
        },
        MdTagView::Item => if m.buffer.len() > 0 {
            RenderModel { buffer: Seq::empty(), out: m.out.push(BlockView::Bullet(m.buffer)), ..m }
        } else {
            m
        },
        MdTagView::List => RenderModel { out: m.out.push(BlockView::Space(5)), ..m },
        MdTagView::Other => m,
    }
}

/// What a text event does: text with a `$` is drawn at once, as is code
/// text and heading text; other text gathers in the buffer.
pub open spec fn add_text(m: RenderModel, t: Seq<char>) -> RenderModel {
    if t.contains('$') {
        RenderModel { heading: 0, out: m.out.push(text_block(t, m.in_code, m.heading)), ..m }
    } else if m.in_code {
        RenderModel { out: m.out.push(BlockView::CodeLine(t)), ..m }
    } else if m.heading > 0 {
        RenderModel { heading: 0, out: m.out.push(BlockView::Heading(m.heading, t)), ..m }
    } else {
        RenderModel { buffer: m.buffer + t, ..m }
    }
}

/// One step of the renderer.
pub open spec fn step(m: RenderModel, e: MdEventView) -> RenderModel {
    match e {
        MdEventView::Start(t) => open_tag(m, t),
        MdEventView::End(t) => close_tag(m, t),
        MdEventView::Text(t) => add_text(m, t),
        MdEventView::Code(t) => RenderModel { out: m.out.push(BlockView::InlineCode(t)), ..m },
        MdEventView::Other => m,
    }
}

/// The renderer after a sequence of events.
pub open spec fn run(events: Seq<MdEventView>) -> RenderModel
    decreases events.len(),
{
    if events.len() == 0 {
        start_model()
    } else {
        step(run(events.drop_last()), events.last())
    }
}

/// What a sequence of events draws: the blocks of the run, and then the
/// gathered text that no element end has drawn.
pub open spec fn rendered(events: Seq<MdEventView>) -> Seq<BlockView> {
    let m = run(events);
    if m.buffer.len() > 0 {
        m.out.push(text_block(m.buffer, false, 0))
    } else {
        m.out
    }
}

/// The executable state behind `RenderModel`.
struct Renderer {
    heading: u32,
    in_code: bool,
    in_table: bool,
    headers: Vec<String>,
    row: Vec<String>,
    rows: Vec<Vec<String>>,
    buffer: String,
    out: Vec<Block>,
}

impl View for Renderer {
    type V = RenderModel;

    closed spec fn view(&self) -> RenderModel {
        RenderModel {
            heading: self.heading,
            in_code: self.in_code,
            in_table: self.in_table,
            headers: texts(self.headers@),
            row: texts(self.row@),
            rows: row_views(self.rows@),
            buffer: self.buffer@,
            out: block_views(self.out@),
        }
    }
}

impl Renderer {
    fn new() -> (r: Renderer)
        ensures
            r@ == start_model(),
    {
        let r = Renderer {
            heading: 0,
            in_code: false,
            in_table: false,
            headers: Vec::new(),
            row: Vec::new(),
            rows: Vec::new(),
            buffer: String::new(),
            out: Vec::new(),
        };
        assert(r@.headers =~= Seq::<Seq<char>>::empty());
        assert(r@.row =~= Seq::<Seq<char>>::empty());
        assert(r@.rows =~= Seq::<Seq<Seq<char>>>::empty());
        assert(r@.out =~= Seq::<BlockView>::empty());
        r
    }

    fn emit(&mut self, b: Block)
        ensures
            final(self)@ == (RenderModel { out: old(self)@.out.push(b@), ..old(self)@ }),
    {
        self.out.push(b);
        assert(block_views(self.out@) =~= block_views(old(self).out@).push(b@));
    }

    fn take_buffer(&mut self) -> (r: String)
        ensures
            r@ == old(self)@.buffer,
            final(self)@ == (RenderModel { buffer: Seq::empty(), ..old(self)@ }),
    {
        let mut r = String::new();
        std::mem::swap(&mut r, &mut self.buffer);
        r
    }

    fn take_row(&mut self) -> (r: Vec<String>)
        ensures
            texts(r@) == old(self)@.row,
            final(self)@ == (RenderModel { row: Seq::empty(), ..old(self)@ }),
    {
        let mut r = Vec::new();
        std::mem::swap(&mut r, &mut self.row);
        assert(texts(self.row@) =~= Seq::<Seq<char>>::empty());
        r
    }

    fn open_tag(&mut self, t: &MdTag)
        ensures
            final(self)@ == open_tag(old(self)@, t@),
    {
        match t {
            MdTag::Heading(l) => {
                self.heading = *l;
            },
            MdTag::Paragraph | MdTag::TableCell | MdTag::Item => {
                self.buffer = String::new();
            },
            MdTag::CodeBlock(lang) => {
                self.emit(Block::Separator);
                self.emit(Block::Space(5));
                let mut fence = "```".to_string();
                match lang {
                    Some(l) => fence.append(l.as_str()),
                    None => {},
                }
                self.emit(Block::Fence(fence));
                self.in_code = true;
            },
            MdTag::Table => {
                self.in_table = true;
                self.headers = Vec::new();
                self.rows = Vec::new();
                assert(texts(self.headers@) =~= Seq::<Seq<char>>::empty());
                assert(row_views(self.rows@) =~= Seq::<Seq<Seq<char>>>::empty());
            },
            MdTag::TableHead => {
                self.headers = Vec::new();
                self.row = Vec::new();
                assert(texts(self.headers@) =~= Seq::<Seq<char>>::empty());
                assert(texts(self.row@) =~= Seq::<Seq<char>>::empty());
            },
            MdTag::TableRow => {
                self.row = Vec::new();
                assert(texts(self.row@) =~= Seq::<Seq<char>>::empty());
            },
            MdTag::List => {
                self.emit(Block::Space(5));
            },
            MdTag::Other => {},
        }
    }

    fn close_tag(&mut self, t: &MdTag)
        ensures
            final(self)@ == close_tag(old(self)@, t@),
    {
        match t {
            MdTag::CodeBlock(_) => {
                self.emit(Block::Fence("```".to_string()));
                self.emit(Block::Separator);
                self.emit(Block::Space(5));
                self.in_code = false;
            },
            MdTag::Paragraph => {
                let text = self.take_buffer();
                if text.unicode_len() > 0 {
                    self.emit(render_text_with_math(text.as_str(), false, 0));
                }
                self.emit(Block::Space(8));
            },
            MdTag::Heading(_) => {
                self.emit(Block::Space(5));
                self.emit(Block::Separator);
                self.emit(Block::Space(5));
            },
            MdTag::TableCell => {
                if self.in_table {
                    let text = self.take_buffer();
                    let ghost before = self.row@;
                    self.row.push(text);
                    assert(texts(self.row@) =~= texts(before).push(text@));
                }
            },
            MdTag::TableHead => {
                if self.in_table {
                    self.headers = self.take_row();
                }
            },
            MdTag::TableRow => {
                if self.in_table {
                    let row = self.take_row();
                    if self.headers.len() == 0 {
                        self.headers = row;
                    } else {
                        let ghost before = self.rows@;
                        self.rows.push(row);
                        assert(row_views(self.rows@) =~= row_views(before).push(texts(row@)));
                    }
                }
            },
            MdTag::Table => {
                if self.in_table {
                    let mut headers = Vec::new();
                    std::mem::swap(&mut headers, &mut self.headers);
                    let mut rows = Vec::new();
                    std::mem::swap(&mut rows, &mut self.rows);
                    assert(texts(self.headers@) =~= Seq::<Seq<char>>::empty());
                    assert(row_views(self.rows@) =~= Seq::<Seq<Seq<char>>>::empty());
                    self.emit(Block::Table(headers, rows));
                    self.in_table = false;
                }
            },
            MdTag::Item => {
                if self.buffer.unicode_len() > 0 {
                    let text = self.take_buffer();
                    self.emit(Block::Bullet(text));
                }
            },
            MdTag::List => {
                self.emit(Block::Space(5));
            },
            MdTag::Other => {},
        }
    }

    fn add_text(&mut self, t: &String)
        ensures
            final(self)@ == add_text(old(self)@, t@),
    {
        if has_char(t.as_str(), '$') {
            let b = render_text_with_math(t.as_str(), self.in_code, self.heading);
            self.emit(b);
            self.heading = 0;
        } else if self.in_code {
            self.emit(Block::CodeLine(t.clone()));
        } else if self.heading > 0 {
            let level = self.heading;
            self.emit(Block::Heading(level, t.clone()));
            self.heading = 0;
        } else {
            self.buffer.append(t.as_str());
        }
    }

    fn feed(&mut self, e: &MdEvent)
        ensures
            final(self)@ == step(old(self)@, e@),
    {
        match e {
            MdEvent::Start(t) => self.open_tag(t),
            MdEvent::End(t) => self.close_tag(t),
            MdEvent::Text(t) => self.add_text(t),
            MdEvent::Code(t) => self.emit(Block::InlineCode(t.clone())),
            MdEvent::Other => {},
        }
    }

    fn finish(self) -> (r: Vec<Block>)
        ensures
            block_views(r@) == (if self@.buffer.len() > 0 {
                self@.out.push(text_block(self@.buffer, false, 0))
            } else {
                self@.out
            }),
    {
        let mut r = self;
        if r.buffer.unicode_len() > 0 {
            let b = render_text_with_math(r.buffer.as_str(), false, 0);
            r.emit(b);
        }
        r.out
    }
}

/// Draws a sequence of markdown events.
pub fn render_events(events: &Vec<MdEvent>) -> (r: Vec<Block>)
    ensures
        block_views(r@) == rendered(event_views(events@)),
{
    let mut st = Renderer::new();
    let mut i: usize = 0;
    while i < events.len()
        invariant
            i <= events@.len(),
            st@ == run(event_views(events@.subrange(0, i as int))),
        decreases events@.len() - i,
    {
        st.feed(&events[i]);
        proof {
            let done = event_views(events@.subrange(0, i + 1));
            assert(done.drop_last() =~= event_views(events@.subrange(0, i as int)));
            assert(done.last() == events@[i as int]@);
        }
        i = i + 1;
    }
    proof {
        assert(events@.subrange(0, events@.len() as int) =~= events@);
    }
    st.finish()
}

/// The events that the markdown parser makes of a text, with tables on.
pub uninterp spec fn markdown_events_of(text: Seq<char>) -> Seq<MdEventView>;

/// The HTML that the markdown parser makes of a text, with tables,
/// footnotes and strikethrough on.
pub uninterp spec fn html_of(text: Seq<char>) -> Seq<char>;

#[verifier::external_type_specification]
#[verifier::external_body]
pub struct ExTag<'a>(Tag<'a>);

/// Relies on pulldown_cmark::Tag: names the kinds of element that the
/// renderer tells apart, keeping a heading's level and a fenced code
/// block's language.
#[verifier::external_body]
fn md_tag(tag: Tag) -> MdTag {
    match tag {
        Tag::Paragraph => MdTag::Paragraph,
        Tag::Heading(level, _, _) => MdTag::Heading(level as u32),
        Tag::CodeBlock(CodeBlockKind::Fenced(lang)) => MdTag::CodeBlock(Some(lang.to_string())),
        Tag::CodeBlock(CodeBlockKind::Indented) => MdTag::CodeBlock(None),
        Tag::List(_) => MdTag::List,
        Tag::Item => MdTag::Item,
        Tag::Table(_) => MdTag::Table,
        Tag::TableHead => MdTag::TableHead,
        Tag::TableRow => MdTag::TableRow,
        Tag::TableCell => MdTag::TableCell,
        _ => MdTag::Other,
    }
}

/// Relies on pulldown_cmark::Parser::new_ext with tables on: the events of a
/// markdown text, which depend on the text alone.
#[verifier::external_body]
fn markdown_events(text: &str) -> (r: Vec<MdEvent>)
    ensures
        event_views(r@) == markdown_events_of(text@),
{
    let mut out = Vec::new();
    for event in Parser::new_ext(text, Options::ENABLE_TABLES) {
        out.push(
            match event {
                Event::Start(tag) => MdEvent::Start(md_tag(tag)),
                Event::End(tag) => MdEvent::End(md_tag(tag)),
                Event::Text(s) => MdEvent::Text(s.to_string()),
                Event::Code(s) => MdEvent::Code(s.to_string()),
                _ => MdEvent::Other,
            },
        );
    }
    out
}

/// Relies on pulldown_cmark::html::push_html over pulldown_cmark::Parser::new_ext
/// with tables, footnotes and strikethrough on: the HTML of a markdown text,
/// which depends on the text alone.
#[verifier::external_body]
fn markdown_html(text: &str) -> (r: String)
    ensures
        r@ == html_of(text@),
{
    let mut options = Options::empty();
    options.insert(Options::ENABLE_STRIKETHROUGH);
    options.insert(Options::ENABLE_TABLES);
    options.insert(Options::ENABLE_FOOTNOTES);
    let mut out = String::new();
    html::push_html(&mut out, Parser::new_ext(text, options));
    out
}

/// Draws a markdown text.
pub fn render_markdown(markdown: &str) -> (r: Vec<Block>)
    ensures
        block_views(r@) == rendered(markdown_events_of(markdown@)),
{
    let events = markdown_events(markdown);
    render_events(&events)
}

/// The HTML of a markdown text.
pub fn markdown_to_html(markdown: &str) -> (r: String)
    ensures
        r@ == html_of(markdown@),
{
    markdown_html(markdown)
}

} // verus!
