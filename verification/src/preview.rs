//! The Markdown preview: the event stream of the CommonMark parser is folded
//! into a flat list of blocks (headings, paragraphs, code blocks, rules,
//! block quotes and lists) with inline runs (bold, italic, inline code).
//! Only the first `PREVIEW_LIMIT` bytes of a document are parsed.

use vstd::prelude::*;
use vstd::string::*;
use vstd::utf8::*;
use pulldown_cmark::{CodeBlockKind, Event, Options, Parser, Tag, TagEnd};

verus! {

// ── Parser events ───────────────────────────────────────────────────────────

/// One event of the CommonMark parser, as far as the preview uses it.
#[derive(Debug, Clone)]
pub enum MdEvent {
    StartHeading(u8),
    StartParagraph,
    StartBlockquote,
    /// Start of a list; the number of its first item for an ordered list.
    StartList(Option<u64>),
    StartItem,
    /// Start of a fenced code block with its info string.
    StartFencedCode(String),
    StartIndentedCode,
    StartEmphasis,
    StartStrong,
    StartImage,
    EndHeading,
    EndParagraph,
    EndBlockquote,
    EndItem,
    EndList,
    EndCodeBlock,
    EndEmphasis,
    EndStrong,
    Text(String),
    Code(String),
    SoftBreak,
    HardBreak,
    Rule,
    /// Any event the preview ignores (links, tables, HTML, ...).
    Other,
}

/// The mathematical value of an [`MdEvent`].
pub enum EventView {
    StartHeading(u8),
    StartParagraph,
    StartBlockquote,
    StartList(Option<u64>),
    StartItem,
    StartFencedCode(Seq<char>),
    StartIndentedCode,
    StartEmphasis,
    StartStrong,
    StartImage,
    EndHeading,
    EndParagraph,
    EndBlockquote,
    EndItem,
    EndList,
    EndCodeBlock,
    EndEmphasis,
    EndStrong,
    Text(Seq<char>),
    Code(Seq<char>),
    SoftBreak,
    HardBreak,
    Rule,
    Other,
}

impl View for MdEvent {
    type V = EventView;

    open spec fn view(&self) -> EventView {
        match self {
            MdEvent::StartHeading(l) => EventView::StartHeading(*l),
            MdEvent::StartParagraph => EventView::StartParagraph,
            MdEvent::StartBlockquote => EventView::StartBlockquote,
            MdEvent::StartList(n) => EventView::StartList(*n),
            MdEvent::StartItem => EventView::StartItem,
            MdEvent::StartFencedCode(l) => EventView::StartFencedCode(l@),
            MdEvent::StartIndentedCode => EventView::StartIndentedCode,
            MdEvent::StartEmphasis => EventView::StartEmphasis,
            MdEvent::StartStrong => EventView::StartStrong,
            MdEvent::StartImage => EventView::StartImage,
            MdEvent::EndHeading => EventView::EndHeading,
            MdEvent::EndParagraph => EventView::EndParagraph,
            MdEvent::EndBlockquote => EventView::EndBlockquote,
            MdEvent::EndItem => EventView::EndItem,
            MdEvent::EndList => EventView::EndList,
            MdEvent::EndCodeBlock => EventView::EndCodeBlock,
            MdEvent::EndEmphasis => EventView::EndEmphasis,
            MdEvent::EndStrong => EventView::EndStrong,
            MdEvent::Text(t) => EventView::Text(t@),
            MdEvent::Code(t) => EventView::Code(t@),
            MdEvent::SoftBreak => EventView::SoftBreak,
            MdEvent::HardBreak => EventView::HardBreak,
            MdEvent::Rule => EventView::Rule,
            MdEvent::Other => EventView::Other,
        }
    }
}

/// The views of a sequence of events.
pub open spec fn events_view(events: Seq<MdEvent>) -> Seq<EventView> {
    events.map_values(|e: MdEvent| e@)
}

/// The event stream that pulldown-cmark produces for a document, with
/// strikethrough and tables enabled, each event converted by `md_event`
/// into the preview's view of it.
pub uninterp spec fn markdown_events(src: Seq<char>) -> Seq<EventView>;

/// A parser event.
#[verifier::external_type_specification]
#[verifier::external_body]
pub struct ExEvent<'a>(Event<'a>);

/// The tag of a start event.
#[verifier::external_type_specification]
#[verifier::external_body]
pub struct ExTag<'a>(Tag<'a>);

/// The tag of an end event.
#[verifier::external_type_specification]
#[verifier::external_body]
pub struct ExTagEnd(TagEnd);

/// An event taken apart one level.
pub enum EventParts<'a> {
    Start(Tag<'a>),
    End(TagEnd),
    Text(String),
    Code(String),
    SoftBreak,
    HardBreak,
    Rule,
    Other,
}

/// The start tags the preview uses.
pub enum StartParts {
    Heading(u8),
    Paragraph,
    BlockQuote,
    List(Option<u64>),
    Item,
    FencedCode(String),
    IndentedCode,
    Emphasis,
    Strong,
    Image,
    Other,
}

/// Tells the variants of a pulldown-cmark `Event` apart, moving the text of
/// text and code events into a `String`.
#[verifier::external_body]
fn event_parts<'a>(e: Event<'a>) -> EventParts<'a> {
    match e {
        Event::Start(t) => EventParts::Start(t),
        Event::End(t) => EventParts::End(t),
        Event::Text(t) => EventParts::Text(t.to_string()),
        Event::Code(t) => EventParts::Code(t.to_string()),
        Event::SoftBreak => EventParts::SoftBreak,
        Event::HardBreak => EventParts::HardBreak,
        Event::Rule => EventParts::Rule,
        _ => EventParts::Other,
    }
}

/// Tells the variants of a pulldown-cmark `Tag` apart (a heading's level as
/// its number, a fenced code block's info string as a `String`).
///
/// Trusted: pulldown-cmark's `HeadingLevel` runs from `H1 = 1` to `H6`, so a
/// heading's number is between 1 and 6. Which variant comes back for which
/// tag is not stated: the tag is opaque here.
#[verifier::external_body]
fn start_parts<'a>(t: Tag<'a>) -> (p: StartParts)
    ensures
        p matches StartParts::Heading(level) ==> 1 <= level <= 6,
{
    match t {
        Tag::Heading { level, .. } => StartParts::Heading(level as u8),
        Tag::Paragraph => StartParts::Paragraph,
        Tag::BlockQuote(_) => StartParts::BlockQuote,
        Tag::List(first) => StartParts::List(first),
        Tag::Item => StartParts::Item,
        Tag::CodeBlock(CodeBlockKind::Fenced(l)) => StartParts::FencedCode(l.to_string()),
        Tag::CodeBlock(CodeBlockKind::Indented) => StartParts::IndentedCode,
        Tag::Emphasis => StartParts::Emphasis,
        Tag::Strong => StartParts::Strong,
        Tag::Image { .. } => StartParts::Image,
        _ => StartParts::Other,
    }
}

/// Tells the variants of a pulldown-cmark `TagEnd` apart.
///
/// Trusted: every arm gives an end event or `Other`; which one comes back
/// for which tag is not stated, the tag being opaque here.
#[verifier::external_body]
fn end_event(t: TagEnd) -> (r: MdEvent)
    ensures
        is_end(&r) || r is Other,
{
    match t {
        TagEnd::Heading(_) => MdEvent::EndHeading,
        TagEnd::Paragraph => MdEvent::EndParagraph,
        TagEnd::BlockQuote(_) => MdEvent::EndBlockquote,
        TagEnd::Item => MdEvent::EndItem,
        TagEnd::List(_) => MdEvent::EndList,
        TagEnd::CodeBlock => MdEvent::EndCodeBlock,
        TagEnd::Emphasis => MdEvent::EndEmphasis,
        TagEnd::Strong => MdEvent::EndStrong,
        _ => MdEvent::Other,
    }
}

/// The preview event that opens the element of a start tag.
pub open spec fn start_event_of(p: StartParts) -> EventView {
    match p {
        StartParts::Heading(level) => EventView::StartHeading(level),
        StartParts::Paragraph => EventView::StartParagraph,
        StartParts::BlockQuote => EventView::StartBlockquote,
        StartParts::List(first) => EventView::StartList(first),
        StartParts::Item => EventView::StartItem,
        StartParts::FencedCode(lang) => EventView::StartFencedCode(lang@),
        StartParts::IndentedCode => EventView::StartIndentedCode,
        StartParts::Emphasis => EventView::StartEmphasis,
        StartParts::Strong => EventView::StartStrong,
        StartParts::Image => EventView::StartImage,
        StartParts::Other => EventView::Other,
    }
}

/// The preview event for a start tag.
fn start_event(p: StartParts) -> (r: MdEvent)
    ensures
        r@ == start_event_of(p),
{
    match p {
        StartParts::Heading(level) => MdEvent::StartHeading(level),
        StartParts::Paragraph => MdEvent::StartParagraph,
        StartParts::BlockQuote => MdEvent::StartBlockquote,
        StartParts::List(first) => MdEvent::StartList(first),
        StartParts::Item => MdEvent::StartItem,
        StartParts::FencedCode(lang) => MdEvent::StartFencedCode(lang),
        StartParts::IndentedCode => MdEvent::StartIndentedCode,
        StartParts::Emphasis => MdEvent::StartEmphasis,
        StartParts::Strong => MdEvent::StartStrong,
        StartParts::Image => MdEvent::StartImage,
        StartParts::Other => MdEvent::Other,
    }
}

/// The preview's view of one parser event: the start and end of the
/// elements the preview uses (`start_event`, `end_event`), text, inline
/// code, breaks and rules, and `Other` for the rest. A heading's level is
/// its number, 1 to 6.
///
/// The event itself is opaque to Verus, so which arm applies is not stated
/// here; the conversion of start tags is stated by `start_event`.
fn md_event(e: Event) -> (r: MdEvent)
    ensures
        r matches MdEvent::StartHeading(level) ==> 1 <= level <= 6,
{
    match event_parts(e) {
        EventParts::Start(t) => start_event(start_parts(t)),
        EventParts::End(t) => end_event(t),
        EventParts::Text(t) => MdEvent::Text(t),
        EventParts::Code(t) => MdEvent::Code(t),
        EventParts::SoftBreak => MdEvent::SoftBreak,
        EventParts::HardBreak => MdEvent::HardBreak,
        EventParts::Rule => MdEvent::Rule,
        EventParts::Other => MdEvent::Other,
    }
}

/// Runs pulldown-cmark (`Parser::new_ext` with strikethrough and tables) over
/// `src` and gives the preview's view of each event (`md_event`).
///
/// Trusted: the result is the parser's event stream, named `markdown_events`;
/// nothing is claimed about what that stream is for a given document beyond
/// what `md_event`, which makes each event, ensures: heading levels are 1 to 6.
#[verifier::external_body]
fn markdown_event_stream(src: &str) -> (events: Vec<MdEvent>)
    ensures
        events_view(events@) == markdown_events(src@),
        heading_levels_ok(events_view(events@)),
{
    let options = Options::ENABLE_STRIKETHROUGH | Options::ENABLE_TABLES;
    Parser::new_ext(src, options).map(md_event).collect()
}

// ── Blocks ──────────────────────────────────────────────────────────────────

/// An inline text run with its formatting.
#[derive(Debug, Clone)]
pub struct Span {
    pub text: String,
    pub bold: bool,
    pub italic: bool,
    pub code: bool,
}

/// The mathematical value of a [`Span`].
pub struct SpanView {
    pub text: Seq<char>,
    pub bold: bool,
    pub italic: bool,
    pub code: bool,
}

impl View for Span {
    type V = SpanView;

    open spec fn view(&self) -> SpanView {
        SpanView { text: self.text@, bold: self.bold, italic: self.italic, code: self.code }
    }
}

/// A rendered block of the preview.
#[derive(Debug, Clone)]
pub enum MdBlock {
    /// A heading (levels 1 to 6) with its plain text.
    Heading { level: u8, text: String },
    /// A paragraph of inline runs.
    Paragraph { spans: Vec<Span> },
    /// A code block with its language, if one was given.
    CodeBlock { code: String, lang: Option<String> },
    /// A horizontal rule.
    Rule,
    /// A block quote.
    Blockquote { spans: Vec<Span> },
    /// A list and the inline runs of each of its items.
    List { ordered: bool, items: Vec<Vec<Span>> },
}

/// The mathematical value of an [`MdBlock`].
pub enum BlockView {
    Heading { level: u8, text: Seq<char> },
    Paragraph { spans: Seq<SpanView> },
    CodeBlock { code: Seq<char>, lang: Option<Seq<char>> },
    Rule,
    Blockquote { spans: Seq<SpanView> },
    List { ordered: bool, items: Seq<Seq<SpanView>> },
}

pub open spec fn spans_view(spans: Seq<Span>) -> Seq<SpanView> {
    spans.map_values(|s: Span| s@)
}

pub open spec fn items_view(items: Seq<Vec<Span>>) -> Seq<Seq<SpanView>> {
    items.map_values(|i: Vec<Span>| spans_view(i@))
}

pub open spec fn opt_string_view(o: Option<String>) -> Option<Seq<char>> {
    match o {
        Some(s) => Some(s@),
        None => None,
    }
}

impl View for MdBlock {
    type V = BlockView;

    open spec fn view(&self) -> BlockView {
        match self {
            MdBlock::Heading { level, text } => BlockView::Heading { level: *level, text: text@ },
            MdBlock::Paragraph { spans } => BlockView::Paragraph { spans: spans_view(spans@) },
            MdBlock::CodeBlock { code, lang } => BlockView::CodeBlock {
                code: code@,
                lang: opt_string_view(*lang),
            },
            MdBlock::Rule => BlockView::Rule,
            MdBlock::Blockquote { spans } => BlockView::Blockquote { spans: spans_view(spans@) },
            MdBlock::List { ordered, items } => BlockView::List {
                ordered: *ordered,
                items: items_view(items@),
            },
        }
    }
}

pub open spec fn blocks_view(blocks: Seq<MdBlock>) -> Seq<BlockView> {
    blocks.map_values(|b: MdBlock| b@)
}

// ── The fold over events ────────────────────────────────────────────────────

/// The state of the fold: finished blocks and what is being accumulated.
pub struct FoldView {
    pub blocks: Seq<BlockView>,
    pub spans: Seq<SpanView>,
    pub text: Seq<char>,
    pub bold: bool,
    pub italic: bool,
    pub heading: Option<u8>,
    pub in_blockquote: bool,
    pub lists: Seq<(bool, Seq<Seq<SpanView>>)>,
    pub in_item: bool,
    pub in_code: bool,
    pub code_text: Seq<char>,
    pub code_lang: Option<Seq<char>>,
}

pub open spec fn initial_fold() -> FoldView {
    FoldView {
        blocks: seq![],
        spans: seq![],
        text: seq![],
        bold: false,
        italic: false,
        heading: None,
        in_blockquote: false,
        lists: seq![],
        in_item: false,
        in_code: false,
        code_text: seq![],
        code_lang: None,
    }
}

/// Closes the pending plain text into a span with the current formatting.
pub open spec fn flushed(s: FoldView) -> FoldView {
    if s.text.len() > 0 {
        FoldView {
            spans: s.spans.push(SpanView { text: s.text, bold: s.bold, italic: s.italic, code: false }),
            text: seq![],
            ..s
        }
    } else {
        s
    }
}

/// The concatenated text of a sequence of spans.
pub open spec fn spans_text(spans: Seq<SpanView>) -> Seq<char>
    decreases spans.len(),
{
    if spans.len() == 0 {
        seq![]
    } else {
        spans_text(spans.drop_last()) + spans.last().text
    }
}

/// Clears the accumulated inline content.
pub open spec fn cleared(s: FoldView) -> FoldView {
    FoldView { spans: seq![], text: seq![], ..s }
}

/// The effect of one event on the fold.
pub open spec fn step(s: FoldView, e: EventView) -> FoldView {
    match e {
        EventView::StartHeading(level) => FoldView { heading: Some(level), ..cleared(s) },
        EventView::StartParagraph => cleared(s),
        EventView::StartBlockquote => FoldView { in_blockquote: true, ..cleared(s) },
        EventView::StartList(first) => FoldView {
            lists: s.lists.push((first is Some, seq![])),
            ..s
        },
        EventView::StartItem => FoldView { in_item: true, ..cleared(s) },
        EventView::StartFencedCode(lang) => FoldView {
            in_code: true,
            code_text: seq![],
            code_lang: if lang.len() == 0 { None } else { Some(lang) },
            ..s
        },
        EventView::StartIndentedCode => FoldView {
            in_code: true,
            code_text: seq![],
            code_lang: None,
            ..s
        },
        EventView::StartEmphasis => FoldView { italic: true, ..flushed(s) },
        EventView::StartStrong => FoldView { bold: true, ..flushed(s) },
        EventView::StartImage => FoldView { text: s.text + seq!['[', 'i', 'm', 'a', 'g', 'e', ']'], ..s },
        EventView::EndHeading => {
            let f = flushed(s);
            let blocks = match f.heading {
                Some(level) => f.blocks.push(BlockView::Heading { level, text: spans_text(f.spans) }),
                None => f.blocks,
            };
            FoldView { blocks, heading: None, spans: seq![], ..f }
        },
        EventView::EndParagraph => {
            let f = flushed(s);
            if f.in_blockquote || f.in_item {
                f
            } else if f.spans.len() > 0 {
                FoldView {
                    blocks: f.blocks.push(BlockView::Paragraph { spans: f.spans }),
                    spans: seq![],
                    ..f
                }
            } else {
                FoldView { spans: seq![], ..f }
            }
        },
        EventView::EndBlockquote => {
            let f = flushed(s);
            FoldView {
                blocks: if f.spans.len() > 0 {
                    f.blocks.push(BlockView::Blockquote { spans: f.spans })
                } else {
                    f.blocks
                },
                spans: seq![],
                in_blockquote: false,
                ..f
            }
        },
        EventView::EndItem => {
            let f = flushed(s);
            FoldView {
                lists: if f.lists.len() > 0 {
                    let last = f.lists.last();
                    f.lists.drop_last().push((last.0, last.1.push(f.spans)))
                } else {
                    f.lists
                },
                spans: seq![],
                in_item: false,
                ..f
            }
        },
        EventView::EndList => if s.lists.len() > 0 {
            FoldView {
                blocks: s.blocks.push(BlockView::List { ordered: s.lists.last().0, items: s.lists.last().1 }),
                lists: s.lists.drop_last(),
                ..s
            }
        } else {
            s
        },
        EventView::EndCodeBlock => FoldView {
            blocks: s.blocks.push(BlockView::CodeBlock { code: s.code_text, lang: s.code_lang }),
            in_code: false,
            code_text: seq![],
            code_lang: None,
            ..s
        },
        EventView::EndEmphasis => FoldView { italic: false, ..flushed(s) },
        EventView::EndStrong => FoldView { bold: false, ..flushed(s) },
        EventView::Text(t) => if s.in_code {
            FoldView { code_text: s.code_text + t, ..s }
        } else {
            FoldView { text: s.text + t, ..s }
        },
        EventView::Code(t) => {
            let f = flushed(s);
            FoldView {
                spans: f.spans.push(SpanView { text: t, bold: false, italic: false, code: true }),
                ..f
            }
        },
        EventView::SoftBreak | EventView::HardBreak => if s.in_code {
            s
        } else {
            FoldView { text: s.text.push('\n'), ..s }
        },
        EventView::Rule => FoldView { blocks: s.blocks.push(BlockView::Rule), ..s },
        EventView::Other => s,
    }
}

/// The fold over a whole event sequence.
pub open spec fn fold_events(events: Seq<EventView>) -> FoldView
    decreases events.len(),
{
    if events.len() == 0 {
        initial_fold()
    } else {
        step(fold_events(events.drop_last()), events.last())
    }
}

/// The blocks that an event sequence yields.
pub open spec fn blocks_of(events: Seq<EventView>) -> Seq<BlockView> {
    fold_events(events).blocks
}

/// A list whose items are being collected.
struct PendingList {
    ordered: bool,
    items: Vec<Vec<Span>>,
}

/// The executable state of the fold; its view is a [`FoldView`].
struct Fold {
    blocks: Vec<MdBlock>,
    spans: Vec<Span>,
    text: String,
    bold: bool,
    italic: bool,
    heading: Option<u8>,
    in_blockquote: bool,
    lists: Vec<PendingList>,
    in_item: bool,
    in_code: bool,
    code_text: String,
    code_lang: Option<String>,
}

spec fn lists_view(lists: Seq<PendingList>) -> Seq<(bool, Seq<Seq<SpanView>>)> {
    lists.map_values(|l: PendingList| (l.ordered, items_view(l.items@)))
}

impl View for Fold {
    type V = FoldView;

    closed spec fn view(&self) -> FoldView {
        FoldView {
            blocks: blocks_view(self.blocks@),
            spans: spans_view(self.spans@),
            text: self.text@,
            bold: self.bold,
            italic: self.italic,
            heading: self.heading,
            in_blockquote: self.in_blockquote,
            lists: lists_view(self.lists@),
            in_item: self.in_item,
            in_code: self.in_code,
            code_text: self.code_text@,
            code_lang: opt_string_view(self.code_lang),
        }
    }
}

impl Fold {
    fn new() -> (f: Fold)
        ensures
            f@ == initial_fold(),
    {
        let f = Fold {
            blocks: Vec::new(),
            spans: Vec::new(),
            text: String::new(),
            bold: false,
            italic: false,
            heading: None,
            in_blockquote: false,
            lists: Vec::new(),
            in_item: false,
            in_code: false,
            code_text: String::new(),
            code_lang: None,
        };
        assert(f@.blocks =~= seq![]);
        assert(f@.spans =~= seq![]);
        assert(f@.lists =~= seq![]);
        f
    }

    /// Closes the pending text into a span.
    fn flush(&mut self)
        ensures
            final(self)@ == flushed(old(self)@),
    {
        if !self.text.as_str().is_empty() {
            let mut t = String::new();
            std::mem::swap(&mut t, &mut self.text);
            let span = Span { text: t, bold: self.bold, italic: self.italic, code: false };
            self.spans.push(span);
            assert(spans_view(self.spans@) =~= spans_view(old(self).spans@).push(span@));
        }
    }

    /// Takes the accumulated spans, leaving none.
    fn take_spans(&mut self) -> (spans: Vec<Span>)
        ensures
            spans@ == old(self).spans@,
            final(self).spans@ == Seq::<Span>::empty(),
            final(self).blocks == old(self).blocks,
            final(self).text == old(self).text,
            final(self).bold == old(self).bold,
            final(self).italic == old(self).italic,
            final(self).heading == old(self).heading,
            final(self).in_blockquote == old(self).in_blockquote,
            final(self).lists == old(self).lists,
            final(self).in_item == old(self).in_item,
            final(self).in_code == old(self).in_code,
            final(self).code_text == old(self).code_text,
            final(self).code_lang == old(self).code_lang,
    {
        let mut spans = Vec::new();
        std::mem::swap(&mut spans, &mut self.spans);
        spans
    }

    /// Clears the accumulated inline content.
    fn clear(&mut self)
        ensures
            final(self)@ == cleared(old(self)@),
    {
        self.spans = Vec::new();
        self.text = String::new();
        assert(spans_view(self.spans@) =~= seq![]);
    }

    /// Pushes a finished block.
    fn emit(&mut self, b: MdBlock)
        ensures
            final(self)@ == (FoldView { blocks: old(self)@.blocks.push(b@), ..old(self)@ }),
    {
        self.blocks.push(b);
        assert(blocks_view(self.blocks@) =~= blocks_view(old(self).blocks@).push(b@));
    }
}

spec fn is_start(e: &MdEvent) -> bool {
    match e {
        MdEvent::StartHeading(_) | MdEvent::StartParagraph | MdEvent::StartBlockquote
        | MdEvent::StartList(_) | MdEvent::StartItem | MdEvent::StartFencedCode(_)
        | MdEvent::StartIndentedCode | MdEvent::StartEmphasis | MdEvent::StartStrong
        | MdEvent::StartImage => true,
        _ => false,
    }
}

spec fn is_end(e: &MdEvent) -> bool {
    match e {
        MdEvent::EndHeading | MdEvent::EndParagraph | MdEvent::EndBlockquote | MdEvent::EndItem
        | MdEvent::EndList | MdEvent::EndCodeBlock | MdEvent::EndEmphasis | MdEvent::EndStrong => true,
        _ => false,
    }
}

impl Fold {
    /// Applies one event.
    fn apply(&mut self, e: &MdEvent)
        ensures
            final(self)@ == step(old(self)@, e@),
    {
        match e {
            MdEvent::StartHeading(_) | MdEvent::StartParagraph | MdEvent::StartBlockquote
            | MdEvent::StartList(_) | MdEvent::StartItem | MdEvent::StartFencedCode(_)
            | MdEvent::StartIndentedCode | MdEvent::StartEmphasis | MdEvent::StartStrong
            | MdEvent::StartImage => self.apply_start(e),
            MdEvent::EndHeading | MdEvent::EndParagraph | MdEvent::EndBlockquote
            | MdEvent::EndItem | MdEvent::EndList | MdEvent::EndCodeBlock | MdEvent::EndEmphasis
            | MdEvent::EndStrong => self.apply_end(e),
            _ => self.apply_leaf(e),
        }
    }

    /// Applies the start of an element.
    #[verifier::rlimit(30)]
    fn apply_start(&mut self, e: &MdEvent)
        requires
            is_start(e),
        ensures
            final(self)@ == step(old(self)@, e@),
    {
        match e {
            MdEvent::StartHeading(level) => {
                self.clear();
                self.heading = Some(*level);
            },
            MdEvent::StartParagraph => {
                self.clear();
            },
            MdEvent::StartBlockquote => {
                self.clear();
                self.in_blockquote = true;
            },
            MdEvent::StartList(first) => {
                let l = PendingList { ordered: first.is_some(), items: Vec::new() };
                self.lists.push(l);
                assert(items_view(l.items@) =~= seq![]);
                assert(lists_view(self.lists@) =~= lists_view(old(self).lists@).push(
                    (l.ordered, items_view(l.items@)),
                ));
            },
            MdEvent::StartItem => {
                self.clear();
                self.in_item = true;
            },
            MdEvent::StartFencedCode(lang) => {
                self.in_code = true;
                self.code_text = String::new();
                self.code_lang = if lang.as_str().is_empty() {
                    None
                } else {
                    Some(lang.clone())
                };
            },
            MdEvent::StartIndentedCode => {
                self.in_code = true;
                self.code_text = String::new();
                self.code_lang = None;
            },
            MdEvent::StartEmphasis => {
                self.flush();
                self.italic = true;
            },
            MdEvent::StartStrong => {
                self.flush();
                self.bold = true;
            },
            MdEvent::StartImage => {
                let image = "[image]";
                proof {
                    reveal_strlit("[image]");
                }
                self.text.append(image);
                assert(self.text@ =~= old(self).text@ + seq!['[', 'i', 'm', 'a', 'g', 'e', ']']);
            },
            _ => {},
        }
    }

    /// Applies the end of an element.
    #[verifier::rlimit(30)]
    fn apply_end(&mut self, e: &MdEvent)
        requires
            is_end(e),
        ensures
            final(self)@ == step(old(self)@, e@),
    {
        match e {
            MdEvent::EndHeading => {
                self.flush();
                let text = concat_span_text(&self.spans);
                match self.heading {
                    Some(level) => {
                        self.emit(MdBlock::Heading { level, text });
                    },
                    None => {},
                }
                self.heading = None;
                self.spans = Vec::new();
                assert(spans_view(self.spans@) =~= seq![]);
            },
            MdEvent::EndParagraph => {
                self.flush();
                if !(self.in_blockquote || self.in_item) {
                    let spans = self.take_spans();
                    assert(spans_view(self.spans@) =~= seq![]);
                    if spans.len() > 0 {
                        self.emit(MdBlock::Paragraph { spans });
                    }
                }
            },
            MdEvent::EndBlockquote => {
                self.flush();
                let spans = self.take_spans();
                assert(spans_view(self.spans@) =~= seq![]);
                self.in_blockquote = false;
                if spans.len() > 0 {
                    self.emit(MdBlock::Blockquote { spans });
                }
            },
            MdEvent::EndItem => {
                self.flush();
                let spans = self.take_spans();
                assert(spans_view(self.spans@) =~= seq![]);
                self.in_item = false;
                let ghost before = self.lists@;
                match self.lists.pop() {
                    Some(last) => {
                        let mut items = last.items;
                        items.push(spans);
                        let l = PendingList { ordered: last.ordered, items };
                        self.lists.push(l);
                        assert(items_view(l.items@) =~= items_view(last.items@).push(spans_view(spans@)));
                        assert(lists_view(before.drop_last()) =~= lists_view(before).drop_last());
                        assert(lists_view(self.lists@) =~= lists_view(before.drop_last()).push(
                            (l.ordered, items_view(l.items@)),
                        ));
                    },
                    None => {},
                }
            },
            MdEvent::EndList => {
                let ghost before = self.lists@;
                match self.lists.pop() {
                    Some(last) => {
                        assert(lists_view(self.lists@) =~= lists_view(before).drop_last());
                        self.emit(MdBlock::List { ordered: last.ordered, items: last.items });
                    },
                    None => {},
                }
            },
            MdEvent::EndCodeBlock => {
                self.in_code = false;
                let mut code = String::new();
                std::mem::swap(&mut code, &mut self.code_text);
                let lang = self.code_lang.take();
                self.emit(MdBlock::CodeBlock { code, lang });
            },
            MdEvent::EndEmphasis => {
                self.flush();
                self.italic = false;
            },
            MdEvent::EndStrong => {
                self.flush();
                self.bold = false;
            },
            _ => {},
        }
    }

    /// Applies a leaf event.
    #[verifier::rlimit(30)]
    fn apply_leaf(&mut self, e: &MdEvent)
        requires
            !is_start(e) && !is_end(e),
        ensures
            final(self)@ == step(old(self)@, e@),
    {
        match e {
            MdEvent::Text(t) => {
                if self.in_code {
                    self.code_text.append(t.as_str());
                } else {
                    self.text.append(t.as_str());
                }
            },
            MdEvent::Code(t) => {
                self.flush();
                let ghost mid = self.spans@;
                let span = Span { text: t.clone(), bold: false, italic: false, code: true };
                self.spans.push(span);
                assert(spans_view(self.spans@) =~= spans_view(mid).push(span@));
            },
            MdEvent::SoftBreak | MdEvent::HardBreak => {
                if !self.in_code {
                    crate::text::push_char(&mut self.text, '\n');
                }
            },
            MdEvent::Rule => {
                self.emit(MdBlock::Rule);
            },
            _ => {},
        }
    }

}

/// The concatenated text of some spans.
fn concat_span_text(spans: &Vec<Span>) -> (t: String)
    ensures
        t@ == spans_text(spans_view(spans@)),
{
    let mut t = String::new();
    let n = spans.len();
    let mut i: usize = 0;
    while i < n
        invariant
            n == spans.len(),
            i <= n,
            t@ == spans_text(spans_view(spans@.take(i as int))),
        decreases n - i,
    {
        t.append(spans[i].text.as_str());
        assert(spans_view(spans@.take(i + 1)).drop_last() =~= spans_view(spans@.take(i as int)));
        i = i + 1;
    }
    assert(spans@.take(n as int) =~= spans@);
    t
}

/// Folds an event stream into preview blocks.
pub fn blocks_from_events(events: &Vec<MdEvent>) -> (blocks: Vec<MdBlock>)
    ensures
        blocks_view(blocks@) == blocks_of(events_view(events@)),
{
    let mut f = Fold::new();
    let n = events.len();
    let mut i: usize = 0;
    while i < n
        invariant
            n == events.len(),
            i <= n,
            f@ == fold_events(events_view(events@.take(i as int))),
        decreases n - i,
    {
        f.apply(&events[i]);
        assert(events_view(events@.take(i + 1)).drop_last() =~= events_view(events@.take(i as int)));
        i = i + 1;
    }
    assert(events@.take(n as int) =~= events@);
    f.blocks
}

/// Parses a Markdown document into preview blocks: paragraphs and block
/// quotes are never empty, only inline-code spans can be empty and those are
/// neither bold nor italic, and headings have levels 1 to 6.
pub fn parse_markdown(src: &str) -> (blocks: Vec<MdBlock>)
    ensures
        blocks_view(blocks@) == blocks_of(markdown_events(src@)),
        blocks_ok(blocks_view(blocks@)),
        block_levels_ok(blocks_view(blocks@)),
{
    let events = markdown_event_stream(src);
    proof {
        lemma_blocks_well_formed(events_view(events@));
        lemma_heading_levels(events_view(events@));
    }
    blocks_from_events(&events)
}

// ── Display details of blocks ───────────────────────────────────────────────

/// The bullet before the item at `index` (from 0) of a list: its number and a
/// dot for an ordered list, a bullet sign otherwise.
pub open spec fn list_bullet_text(ordered: bool, index: nat) -> Seq<char> {
    if ordered {
        crate::text::decimal(index + 1) + ". "@
    } else {
        "• "@
    }
}

/// The bullet shown before a list item.
pub fn list_bullet(ordered: bool, index: usize) -> (r: String)
    requires
        index < usize::MAX,
    ensures
        r@ == list_bullet_text(ordered, index as nat),
{
    if ordered {
        let mut r = String::new();
        crate::text::push_decimal(&mut r, index as u128 + 1);
        r.append(". ");
        r
    } else {
        String::from_str("• ")
    }
}

/// A text without its trailing newlines.
pub open spec fn without_trailing_newlines(s: Seq<char>) -> Seq<char>
    decreases s.len(),
{
    if s.len() > 0 && s.last() == '\n' {
        without_trailing_newlines(s.drop_last())
    } else {
        s
    }
}

/// The text shown for a code block: its code without trailing newlines.
pub fn code_block_display(code: &str) -> (r: String)
    ensures
        r@ == without_trailing_newlines(code@),
{
    let mut n = code.unicode_len();
    assert(code@.take(n as int) =~= code@);
    while n > 0 && code.get_char(n - 1) == '\n'
        invariant
            n <= code@.len(),
            without_trailing_newlines(code@) == without_trailing_newlines(code@.take(n as int)),
        decreases n,
    {
        assert(code@.take(n as int).drop_last() =~= code@.take(n - 1));
        n = n - 1;
    }
    String::from_str(code.substring_char(0, n))
}

// ── The preview pane's model ────────────────────────────────────────────────

/// At most this many bytes of a document are parsed for the preview.
pub const PREVIEW_LIMIT: usize = 512 * 1024;

/// The largest character boundary of `bytes` at or below `k`.
pub open spec fn boundary_at_or_below(bytes: Seq<u8>, k: nat) -> nat
    decreases k,
{
    if k == 0 || is_char_boundary(bytes, k as int) {
        k
    } else {
        boundary_at_or_below(bytes, (k - 1) as nat)
    }
}

/// How many bytes of a document with UTF-8 encoding `bytes` the preview parses:
/// all of them up to `PREVIEW_LIMIT`, otherwise up to the last character
/// boundary at or below the limit.
pub open spec fn preview_cut(bytes: Seq<u8>) -> nat {
    if bytes.len() <= PREVIEW_LIMIT {
        bytes.len()
    } else {
        boundary_at_or_below(bytes, PREVIEW_LIMIT as nat)
    }
}

/// The part of a document that the preview parses.
pub open spec fn preview_text(src: Seq<char>) -> Seq<char> {
    decode_utf8(encode_utf8(src).subrange(0, preview_cut(encode_utf8(src)) as int))
}

/// What part of the document the preview shows.
#[derive(Debug, Clone, Copy, PartialEq, Eq)]
pub struct PreviewStats {
    /// The number of bytes of the document that were parsed.
    pub rendered_bytes: usize,
    /// Whether the document was longer than what was parsed.
    pub truncated: bool,
}

/// The stats of the preview of a document.
pub open spec fn preview_stats_of(src: Seq<char>) -> PreviewStats {
    PreviewStats {
        rendered_bytes: preview_cut(encode_utf8(src)) as usize,
        truncated: encode_utf8(src).len() > PREVIEW_LIMIT,
    }
}

/// The length of the UTF-8 encoding of `s`.
pub fn byte_len(s: &str) -> (n: usize)
    ensures
        n == s.spec_bytes().len(),
{
    s.as_bytes().len()
}

/// The part of `src` that the preview parses, as a slice of it.
fn preview_slice(src: &str) -> (res: &str)
    ensures
        res@ == preview_text(src@),
        res.spec_bytes().len() == preview_cut(src.spec_bytes()),
{
    proof {
        encode_utf8_valid_utf8(src@);
    }
    if byte_len(src) <= PREVIEW_LIMIT {
        proof {
            assert(encode_utf8(src@).subrange(0, encode_utf8(src@).len() as int) =~= encode_utf8(src@));
            encode_utf8_decode_utf8(src@);
        }
        return src;
    }
    let mut k: usize = PREVIEW_LIMIT;
    while k > 0 && !src.is_char_boundary(k)
        invariant
            k <= PREVIEW_LIMIT,
            PREVIEW_LIMIT < src.spec_bytes().len(),
            valid_utf8(src.spec_bytes()),
            boundary_at_or_below(src.spec_bytes(), k as nat)
                == boundary_at_or_below(src.spec_bytes(), PREVIEW_LIMIT as nat),
        decreases k,
    {
        k = k - 1;
    }
    assert(boundary_at_or_below(src.spec_bytes(), k as nat) == k);
    let (head, _) = src.split_at(k);
    proof {
        encode_utf8_decode_utf8(head@);
    }
    head
}

/// The read-only Markdown preview: the blocks of the (possibly cut) document
/// and what part of it they cover.
pub struct MarkdownPreview {
    blocks: Vec<MdBlock>,
    stats: PreviewStats,
}

impl MarkdownPreview {
    /// The blocks shown.
    pub closed spec fn spec_blocks(&self) -> Seq<BlockView> {
        blocks_view(self.blocks@)
    }

    /// The stats of what is shown.
    pub closed spec fn spec_stats(&self) -> PreviewStats {
        self.stats
    }

    /// A preview of `src`.
    pub fn new(src: &str) -> (p: Self)
        ensures
            p.spec_blocks() == blocks_of(markdown_events(preview_text(src@))),
            p.spec_stats() == preview_stats_of(src@),
    {
        let shown = preview_slice(src);
        let stats = PreviewStats {
            rendered_bytes: byte_len(shown),
            truncated: byte_len(src) > PREVIEW_LIMIT,
        };
        MarkdownPreview { blocks: parse_markdown(shown), stats }
    }

    /// Replaces the previewed document with `src`.
    pub fn set_markdown(&mut self, src: &str)
        ensures
            final(self).spec_blocks() == blocks_of(markdown_events(preview_text(src@))),
            final(self).spec_stats() == preview_stats_of(src@),
    {
        *self = MarkdownPreview::new(src);
    }

    /// What part of the document is shown.
    pub fn stats(&self) -> (s: PreviewStats)
        ensures
            s == self.spec_stats(),
    {
        self.stats
    }

    /// The blocks shown, in document order.
    pub fn blocks(&self) -> (b: &Vec<MdBlock>)
        ensures
            blocks_view(b@) == self.spec_blocks(),
    {
        &self.blocks
    }
}

proof fn lemma_boundary_at_or_below(bytes: Seq<u8>, k: nat)
    requires
        valid_utf8(bytes),
    ensures
        boundary_at_or_below(bytes, k) <= k,
        is_char_boundary(bytes, boundary_at_or_below(bytes, k) as int),
    decreases k,
{
    if k == 0 {
        is_char_boundary_start_end_of_seq(bytes);
    } else if !is_char_boundary(bytes, k as int) {
        lemma_boundary_at_or_below(bytes, (k - 1) as nat);
    }
}

/// The preview covers the start of the document: at most `PREVIEW_LIMIT`
/// bytes of it, its text is a prefix of the document's, and a document of at
/// most `PREVIEW_LIMIT` bytes is covered whole.
pub proof fn lemma_preview_is_document_start(src: Seq<char>)
    ensures
        preview_stats_of(src).rendered_bytes <= PREVIEW_LIMIT,
        preview_text(src).is_prefix_of(src),
        encode_utf8(preview_text(src)).len() == preview_stats_of(src).rendered_bytes,
        !preview_stats_of(src).truncated ==> preview_text(src) == src,
        preview_stats_of(src).truncated <==> encode_utf8(src).len() > PREVIEW_LIMIT,
{
    let bytes = encode_utf8(src);
    encode_utf8_valid_utf8(src);
    encode_utf8_decode_utf8(src);
    let k = preview_cut(bytes) as int;
    if bytes.len() <= PREVIEW_LIMIT {
        is_char_boundary_start_end_of_seq(bytes);
    } else {
        lemma_boundary_at_or_below(bytes, PREVIEW_LIMIT as nat);
    }
    assert(is_char_boundary(bytes, k));
    decode_utf8_split(bytes, k);
    valid_utf8_split(bytes, k);
    decode_utf8_encode_utf8(bytes.subrange(0, k));
    let head = decode_utf8(bytes.subrange(0, k));
    let tail = decode_utf8(bytes.subrange(k, bytes.len() as int));
    assert(src == head + tail);
    assert(head.is_prefix_of(src)) by {
        assert(src.subrange(0, head.len() as int) =~= head);
    }
    if bytes.len() <= PREVIEW_LIMIT {
        assert(bytes.subrange(0, k) =~= bytes);
    }
}

/// A span that is not inline code has some text, and an inline-code span is
/// neither bold nor italic.
pub open spec fn span_ok(s: SpanView) -> bool {
    &&& s.code || s.text.len() > 0
    &&& s.code ==> !s.bold && !s.italic
}

pub open spec fn spans_ok(spans: Seq<SpanView>) -> bool {
    forall|i: int| 0 <= i < spans.len() ==> span_ok(#[trigger] spans[i])
}

pub open spec fn items_ok(items: Seq<Seq<SpanView>>) -> bool {
    forall|i: int| 0 <= i < items.len() ==> spans_ok(#[trigger] items[i])
}

/// Paragraphs and block quotes have at least one span, and every span of a
/// block is as `span_ok` says.
pub open spec fn block_ok(b: BlockView) -> bool {
    match b {
        BlockView::Paragraph { spans } => spans.len() > 0 && spans_ok(spans),
        BlockView::Blockquote { spans } => spans.len() > 0 && spans_ok(spans),
        BlockView::List { items, .. } => items_ok(items),
        _ => true,
    }
}

pub open spec fn blocks_ok(blocks: Seq<BlockView>) -> bool {
    forall|i: int| 0 <= i < blocks.len() ==> block_ok(#[trigger] blocks[i])
}

spec fn fold_ok(f: FoldView) -> bool {
    &&& blocks_ok(f.blocks)
    &&& spans_ok(f.spans)
    &&& forall|i: int| 0 <= i < f.lists.len() ==> items_ok(#[trigger] f.lists[i].1)
}

proof fn lemma_step_ok(s: FoldView, e: EventView)
    requires
        fold_ok(s),
    ensures
        fold_ok(step(s, e)),
{
    let f = flushed(s);
    assert(fold_ok(f)) by {
        if s.text.len() > 0 {
            assert forall|i: int| 0 <= i < f.spans.len() implies span_ok(#[trigger] f.spans[i]) by {
                if i < s.spans.len() {
                    assert(f.spans[i] == s.spans[i]);
                }
            }
        }
    }
    let t = step(s, e);
    match e {
        EventView::EndHeading | EventView::EndParagraph | EventView::EndBlockquote
        | EventView::EndCodeBlock | EventView::Rule => {
            assert forall|i: int| 0 <= i < t.blocks.len() implies block_ok(#[trigger] t.blocks[i]) by {
                if i < f.blocks.len() {
                    assert(t.blocks[i] == f.blocks[i]);
                }
            }
        },
        EventView::EndList => {
            if s.lists.len() > 0 {
                assert(items_ok(s.lists[s.lists.len() - 1].1));
                assert forall|i: int| 0 <= i < t.blocks.len() implies block_ok(#[trigger] t.blocks[i]) by {
                    if i < s.blocks.len() {
                        assert(t.blocks[i] == s.blocks[i]);
                    }
                }
                assert forall|i: int| 0 <= i < t.lists.len() implies items_ok(#[trigger] t.lists[i].1) by {
                    assert(t.lists[i] == s.lists[i]);
                }
            }
        },
        EventView::EndItem => {
            if f.lists.len() > 0 {
                let k = f.lists.len() - 1;
                let last = f.lists[k];
                assert(items_ok(last.1));
                assert forall|i: int| 0 <= i < t.lists.len() implies items_ok(#[trigger] t.lists[i].1) by {
                    if i < k {
                        assert(t.lists[i] == f.lists[i]);
                    } else {
                        let items = last.1.push(f.spans);
                        assert(t.lists[i].1 == items);
                        assert forall|j: int| 0 <= j < items.len() implies spans_ok(#[trigger] items[j]) by {
                            if j < last.1.len() {
                                assert(items[j] == last.1[j]);
                            }
                        }
                    }
                }
            }
        },
        EventView::StartList(_) => {
            assert forall|i: int| 0 <= i < t.lists.len() implies items_ok(#[trigger] t.lists[i].1) by {
                if i < s.lists.len() {
                    assert(t.lists[i] == s.lists[i]);
                }
            }
        },
        EventView::Code(c) => {
            assert forall|i: int| 0 <= i < t.spans.len() implies span_ok(#[trigger] t.spans[i]) by {
                if i < f.spans.len() {
                    assert(t.spans[i] == f.spans[i]);
                }
            }
        },
        _ => {},
    }
}

proof fn lemma_fold_ok(events: Seq<EventView>)
    ensures
        fold_ok(fold_events(events)),
    decreases events.len(),
{
    if events.len() > 0 {
        lemma_fold_ok(events.drop_last());
        lemma_step_ok(fold_events(events.drop_last()), events.last());
    }
}

/// Whatever the parser's events, every paragraph and block quote of the
/// preview has at least one span, only inline-code spans can be empty, and
/// inline-code spans are neither bold nor italic.
pub proof fn lemma_blocks_well_formed(events: Seq<EventView>)
    ensures
        blocks_ok(blocks_of(events)),
{
    lemma_fold_ok(events);
}

/// Every heading event has a level from 1 to 6.
pub open spec fn heading_levels_ok(events: Seq<EventView>) -> bool {
    forall|i: int|
        0 <= i < events.len() ==> (#[trigger] events[i] matches EventView::StartHeading(l) ==> 1 <= l <= 6)
}

/// Every heading block has a level from 1 to 6.
pub open spec fn block_levels_ok(blocks: Seq<BlockView>) -> bool {
    forall|i: int|
        0 <= i < blocks.len() ==> (#[trigger] blocks[i] matches BlockView::Heading { level, .. } ==> 1
            <= level <= 6)
}

spec fn fold_levels_ok(f: FoldView) -> bool {
    &&& block_levels_ok(f.blocks)
    &&& f.heading matches Some(l) ==> 1 <= l <= 6
}

proof fn lemma_fold_levels(events: Seq<EventView>)
    requires
        heading_levels_ok(events),
    ensures
        fold_levels_ok(fold_events(events)),
    decreases events.len(),
{
    if events.len() > 0 {
        let pre = events.drop_last();
        assert(heading_levels_ok(pre)) by {
            assert forall|i: int| 0 <= i < pre.len() implies (#[trigger] pre[i] matches EventView::StartHeading(
                l,
            ) ==> 1 <= l <= 6) by {
                assert(pre[i] == events[i]);
            }
        }
        lemma_fold_levels(pre);
        let s = fold_events(pre);
        let e = events.last();
        assert(events[events.len() - 1] == e);
        let t = step(s, e);
        let f = flushed(s);
        assert(f.blocks == s.blocks && f.heading == s.heading);
        assert forall|i: int| 0 <= i < t.blocks.len() implies (#[trigger] t.blocks[i] matches BlockView::Heading {
            level,
            ..
        } ==> 1 <= level <= 6) by {
            if i < s.blocks.len() {
                assert(t.blocks[i] == s.blocks[i]);
            }
        }
    }
}

/// When every heading event has a level from 1 to 6, so does every heading
/// block of the preview.
pub proof fn lemma_heading_levels(events: Seq<EventView>)
    requires
        heading_levels_ok(events),
    ensures
        block_levels_ok(blocks_of(events)),
{
    lemma_fold_levels(events);
}

/// A plain (unformatted, non-code) span of text `t`.
pub open spec fn plain_span(t: Seq<char>) -> SpanView {
    SpanView { text: t, bold: false, italic: false, code: false }
}

proof fn lemma_fold_push(events: Seq<EventView>, e: EventView)
    ensures
        fold_events(events.push(e)) == step(fold_events(events), e),
{
    assert(events.push(e).drop_last() =~= events);
}

/// Inside a list item, closing a paragraph adds no block: the paragraph's
/// text stays with the item.
pub proof fn lemma_item_paragraph_adds_no_block(events: Seq<EventView>)
    requires
        fold_events(events).in_item,
    ensures
        blocks_of(events.push(EventView::EndParagraph)) == blocks_of(events),
{
    lemma_fold_push(events, EventView::EndParagraph);
}

/// A list item whose text is wrapped in a paragraph (a loose list) gives one
/// list block whose item holds that text, and no paragraph block.
pub proof fn lemma_loose_list_item(first: Option<u64>, t: Seq<char>)
    requires
        t.len() > 0,
    ensures
        blocks_of(
            seq![
                EventView::StartList(first),
                EventView::StartItem,
                EventView::StartParagraph,
                EventView::Text(t),
                EventView::EndParagraph,
                EventView::EndItem,
                EventView::EndList,
            ],
        ) == seq![BlockView::List { ordered: first is Some, items: seq![seq![plain_span(t)]] }],
{
    let e = seq![
        EventView::StartList(first),
        EventView::StartItem,
        EventView::StartParagraph,
        EventView::Text(t),
        EventView::EndParagraph,
        EventView::EndItem,
        EventView::EndList,
    ];
    lemma_fold_push(e.take(0), e[0]);
    assert(e.take(1) =~= e.take(0).push(e[0]));
    lemma_fold_push(e.take(1), e[1]);
    assert(e.take(2) =~= e.take(1).push(e[1]));
    lemma_fold_push(e.take(2), e[2]);
    assert(e.take(3) =~= e.take(2).push(e[2]));
    lemma_fold_push(e.take(3), e[3]);
    assert(e.take(4) =~= e.take(3).push(e[3]));
    lemma_fold_push(e.take(4), e[4]);
    assert(e.take(5) =~= e.take(4).push(e[4]));
    lemma_fold_push(e.take(5), e[5]);
    assert(e.take(6) =~= e.take(5).push(e[5]));
    lemma_fold_push(e.take(6), e[6]);
    assert(e.take(7) =~= e.take(6).push(e[6]));
    assert(e.take(0) =~= seq![]);
    assert(e.take(7) =~= e);
    let f0 = initial_fold();
    let f1 = step(f0, e[0]);
    let f2 = step(f1, e[1]);
    let f3 = step(f2, e[2]);
    let f4 = step(f3, e[3]);
    let f5 = step(f4, e[4]);
    let f6 = step(f5, e[5]);
    let f7 = step(f6, e[6]);
    assert(fold_events(e.take(0)) == f0);
    assert(fold_events(e.take(1)) == f1);
    assert(fold_events(e.take(2)) == f2);
    assert(fold_events(e.take(3)) == f3);
    assert(fold_events(e.take(4)) == f4);
    assert(fold_events(e.take(5)) == f5);
    assert(fold_events(e.take(6)) == f6);
    assert(fold_events(e.take(7)) == f7);
    assert(f5.spans =~= seq![plain_span(t)]);
    assert(f7.blocks =~= seq![BlockView::List { ordered: first is Some, items: seq![seq![plain_span(t)]] }]);
}

/// A hard line break does what a soft one does: outside a code block it adds
/// one newline to the pending text and changes nothing else; inside a code
/// block it changes nothing.
pub proof fn lemma_line_breaks(s: FoldView)
    ensures
        step(s, EventView::HardBreak) == step(s, EventView::SoftBreak),
        !s.in_code ==> step(s, EventView::HardBreak) == (FoldView { text: s.text.push('\n'), ..s }),
        s.in_code ==> step(s, EventView::HardBreak) == s,
{
}

/// A paragraph of two lines joined by a hard break is one span holding both
/// lines with a newline between them.
pub proof fn lemma_hard_break_paragraph(a: Seq<char>, b: Seq<char>)
    ensures
        blocks_of(
            seq![
                EventView::StartParagraph,
                EventView::Text(a),
                EventView::HardBreak,
                EventView::Text(b),
                EventView::EndParagraph,
            ],
        ) == seq![BlockView::Paragraph { spans: seq![plain_span(a.push('\n') + b)] }],
{
    let e = seq![
        EventView::StartParagraph,
        EventView::Text(a),
        EventView::HardBreak,
        EventView::Text(b),
        EventView::EndParagraph,
    ];
    lemma_fold_push(e.take(0), e[0]);
    lemma_fold_push(e.take(1), e[1]);
    lemma_fold_push(e.take(2), e[2]);
    lemma_fold_push(e.take(3), e[3]);
    lemma_fold_push(e.take(4), e[4]);
    assert(e.take(1) =~= e.take(0).push(e[0]));
    assert(e.take(2) =~= e.take(1).push(e[1]));
    assert(e.take(3) =~= e.take(2).push(e[2]));
    assert(e.take(4) =~= e.take(3).push(e[3]));
    assert(e =~= e.take(4).push(e[4]));
    assert(e.take(0) =~= seq![]);
    let f1 = step(initial_fold(), e[0]);
    let f2 = step(f1, e[1]);
    let f3 = step(f2, e[2]);
    let f4 = step(f3, e[3]);
    let f5 = step(f4, e[4]);
    assert(f1.text =~= seq![]);
    assert(f4.text =~= a.push('\n') + b);
    assert(f4.text.len() > 0);
    assert(f5.blocks =~= seq![BlockView::Paragraph { spans: seq![plain_span(a.push('\n') + b)] }]);
}

} // verus!
