//! Extraction of the thumbnails that slicers embed in G-code comments.
//!
//! A slicer writes each thumbnail as a block of comments:
//!
//! ```text
//! ; thumbnail begin 300x300 12345
//! ; iVBORw0KGgoAAAANSUhEUgAAASwAAAEsCAYAAAB5fY51AAAgAElEQVR4nO3de...
//! ; ...
//! ; thumbnail end
//! ```
//!
//! The scanner follows these blocks comment by comment and keeps the largest
//! complete thumbnail it has seen.

use core::ops::ControlFlow;
use vstd::prelude::*;

use crate::text::{
    chars_of, decimal_value, digit_value, find_in_range, is_decimal_digit,
    lemma_trim_comment_strips_only_padding, padding_end, parse_u32_range, range_equals,
    range_starts_with, spec_is_whitespace, spec_parse_u32, split_once, trim_comment,
    unsigned_digits,
};

verus! {

/// A thumbnail that was embedded in the G-code file.
#[derive(Debug, Clone)]
pub struct Thumbnail {
    pub width: u32,
    pub height: u32,
    /// The base64 text of the image, as written in the comments.
    pub data: String,
}

/// The mathematical value of a [`Thumbnail`].
pub struct ThumbnailModel {
    pub width: u32,
    pub height: u32,
    pub data: Seq<char>,
}

impl View for Thumbnail {
    type V = ThumbnailModel;

    open spec fn view(&self) -> ThumbnailModel {
        ThumbnailModel { width: self.width, height: self.height, data: self.data@ }
    }
}

/// The number of pixels of a thumbnail.
pub open spec fn area(t: ThumbnailModel) -> int {
    t.width * t.height
}

/// The state of a scan: the best complete thumbnail so far, and the block
/// being read, if any.
pub struct ScanModel {
    pub best: Option<ThumbnailModel>,
    pub current: Option<ThumbnailModel>,
}

/// The state before any comment has been read.
pub open spec fn initial_scan() -> ScanModel {
    ScanModel { best: None, current: None }
}

/// The text that opens a thumbnail block, after the comment padding.
pub open spec fn begin_marker() -> Seq<char> {
    "thumbnail begin "@
}

/// The text of the comment that closes a thumbnail block.
pub open spec fn end_marker() -> Seq<char> {
    "thumbnail end"@
}

/// The dimensions named by a `thumbnail begin <width>x<height> <size>` header,
/// where all three numbers must read as `u32`.
pub open spec fn parse_thumbnail_begin(content: Seq<char>) -> Option<(u32, u32)> {
    if begin_marker().is_prefix_of(content) {
        let meta = content.skip(begin_marker().len() as int);
        match split_once(meta, ' ') {
            Some((dims, size)) => match split_once(dims, 'x') {
                Some((w, h)) => match (spec_parse_u32(w), spec_parse_u32(h), spec_parse_u32(size)) {
                    (Some(width), Some(height), Some(_)) => Some((width, height)),
                    _ => None,
                },
                None => None,
            },
            None => None,
        }
    } else {
        None
    }
}

/// Whether a completed thumbnail `t` takes the place of `best`: when there is
/// no best yet, or when `t` has strictly more pixels.
pub open spec fn replaces_best(t: ThumbnailModel, best: Option<ThumbnailModel>) -> bool {
    match best {
        None => true,
        Some(b) => area(t) > area(b),
    }
}

/// What reading one comment does to the scan.
pub open spec fn scan_comment(m: ScanModel, comment: Seq<char>) -> ScanModel {
    let content = trim_comment(comment);
    match parse_thumbnail_begin(content) {
        Some((w, h)) => ScanModel {
            best: m.best,
            current: Some(ThumbnailModel { width: w, height: h, data: Seq::empty() }),
        },
        None => if content == end_marker() {
            match m.current {
                Some(t) => ScanModel {
                    best: if replaces_best(t, m.best) {
                        Some(t)
                    } else {
                        m.best
                    },
                    current: None,
                },
                None => m,
            }
        } else {
            match m.current {
                Some(t) => ScanModel {
                    best: m.best,
                    current: Some(
                        ThumbnailModel { width: t.width, height: t.height, data: t.data + content },
                    ),
                },
                None => m,
            }
        },
    }
}

/// What a comment was, for the scan.
pub enum ThumbnailComment {
    /// A block header: a new block of these dimensions starts.
    Begin { width: u32, height: u32 },
    /// The end of a block; `best` tells whether the block became the best thumbnail.
    Completed { width: u32, height: u32, best: bool },
    /// An end marker with no block open.
    UnmatchedEnd,
    /// A line of image data inside a block.
    Data,
    /// A comment outside any block.
    Other,
}

/// The kind of a comment, given the scan state before it.
pub open spec fn comment_kind(m: ScanModel, comment: Seq<char>) -> ThumbnailComment {
    let content = trim_comment(comment);
    match parse_thumbnail_begin(content) {
        Some((w, h)) => ThumbnailComment::Begin { width: w, height: h },
        None => if content == end_marker() {
            match m.current {
                Some(t) => ThumbnailComment::Completed {
                    width: t.width,
                    height: t.height,
                    best: replaces_best(t, m.best),
                },
                None => ThumbnailComment::UnmatchedEnd,
            }
        } else {
            match m.current {
                Some(_) => ThumbnailComment::Data,
                None => ThumbnailComment::Other,
            }
        },
    }
}

/// Reads the header of a thumbnail block in `chars[start..end]`.
fn thumbnail_begin(chars: &Vec<char>, start: usize, end: usize) -> (r: Option<(u32, u32)>)
    requires
        start <= end <= chars@.len(),
    ensures
        r == parse_thumbnail_begin(chars@.subrange(start as int, end as int)),
{
    let ghost content = chars@.subrange(start as int, end as int);
    let marker = chars_of("thumbnail begin ");
    if !range_starts_with(chars, start, end, &marker) {
        return None;
    }
    let meta_start = start + marker.len();
    let ghost meta = content.skip(begin_marker().len() as int);
    assert(meta =~= chars@.subrange(meta_start as int, end as int));
    let space = match find_in_range(chars, meta_start, end, ' ') {
        Some(p) => p,
        None => {
            return None;
        },
    };
    let ghost dims = chars@.subrange(meta_start as int, space as int);
    assert(meta.take(space - meta_start) =~= dims);
    assert(meta.skip(space - meta_start + 1) =~= chars@.subrange(space + 1, end as int));
    assert(split_once(meta, ' ') == Some((dims, chars@.subrange(space + 1, end as int))));
    let cross = match find_in_range(chars, meta_start, space, 'x') {
        Some(p) => p,
        None => {
            return None;
        },
    };
    assert(dims.take(cross - meta_start) =~= chars@.subrange(meta_start as int, cross as int));
    assert(dims.skip(cross - meta_start + 1) =~= chars@.subrange(cross + 1, space as int));
    assert(split_once(dims, 'x') == Some(
        (
            chars@.subrange(meta_start as int, cross as int),
            chars@.subrange(cross + 1, space as int),
        ),
    ));
    let width = parse_u32_range(chars, meta_start, cross);
    let height = parse_u32_range(chars, cross + 1, space);
    let size = parse_u32_range(chars, space + 1, end);
    match (width, height, size) {
        (Some(w), Some(h), Some(_)) => Some((w, h)),
        _ => None,
    }
}

/// The number of pixels of a `width` by `height` image, without overflow.
fn pixel_count(width: u32, height: u32) -> (n: u64)
    ensures
        n == width * height,
{
    assert(0 <= width * height <= 0xffff_fffe_0000_0001) by (nonlinear_arith)
        requires
            width <= 0xffff_ffff,
            height <= 0xffff_ffff,
    ;
    width as u64 * height as u64
}

/// Scans G-code comments for embedded thumbnails and keeps the largest one.
pub struct ProgramVisitorImpl {
    /// The highest quality thumbnail found so far, if any.
    best_thumbnail: Option<Thumbnail>,
    /// The thumbnail being read: width, height and the data read so far.
    current_thumbnail: Option<(u32, u32, String)>,
}

impl View for ProgramVisitorImpl {
    type V = ScanModel;

    closed spec fn view(&self) -> ScanModel {
        ScanModel {
            best: match self.best_thumbnail {
                Some(t) => Some(t@),
                None => None,
            },
            current: match self.current_thumbnail {
                Some((w, h, d)) => Some(ThumbnailModel { width: w, height: h, data: d@ }),
                None => None,
            },
        }
    }
}

impl ProgramVisitorImpl {
    /// A scanner that has read nothing yet.
    pub fn new() -> (v: Self)
        ensures
            v@ == initial_scan(),
    {
        ProgramVisitorImpl { best_thumbnail: None, current_thumbnail: None }
    }

    /// Get the largest thumbnail found, if any.
    pub fn get_best_thumbnail(&self) -> (r: Option<&Thumbnail>)
        ensures
            match r {
                Some(t) => self@.best == Some(t@),
                None => self@.best is None,
            },
    {
        self.best_thumbnail.as_ref()
    }

    /// Reads one comment of the G-code file.
    pub fn comment(&mut self, value: &str) -> (kind: ThumbnailComment)
        ensures
            final(self)@ == scan_comment(old(self)@, value@),
            kind == comment_kind(old(self)@, value@),
    {
        let chars = chars_of(value);
        let n = chars.len();
        let k = padding_end(&chars);
        let ghost content = trim_comment(value@);
        assert(content =~= chars@.subrange(k as int, n as int));
        if let Some((w, h)) = thumbnail_begin(&chars, k, n) {
            self.current_thumbnail = Some((w, h, String::new()));
            return ThumbnailComment::Begin { width: w, height: h };
        }
        let marker = chars_of("thumbnail end");
        if range_equals(&chars, k, n, &marker) {
            match self.current_thumbnail.take() {
                Some((width, height, data)) => {
                    let thumbnail = Thumbnail { width, height, data };
                    let replace = match &self.best_thumbnail {
                        None => true,
                        Some(best) => {
                            pixel_count(width, height) > pixel_count(best.width, best.height)
                        },
                    };
                    if replace {
                        self.best_thumbnail = Some(thumbnail);
                    }
                    ThumbnailComment::Completed { width, height, best: replace }
                },
                None => ThumbnailComment::UnmatchedEnd,
            }
        } else {
            match self.current_thumbnail.take() {
                Some((width, height, data)) => {
                    let mut data = data;
                    let text = value.substring_char(k, n);
                    data.append(text);
                    self.current_thumbnail = Some((width, height, data));
                    ThumbnailComment::Data
                },
                None => ThumbnailComment::Other,
            }
        }
    }

    /// Whether the scan goes on past a G command with this major number: it
    /// stops at the first G1 move, since thumbnails sit in the file header.
    pub fn start_general_code(&self, major: u32) -> (flow: ControlFlow<(), ()>)
        ensures
            flow == if major == 1 {
                ControlFlow::<(), ()>::Break(())
            } else {
                ControlFlow::<(), ()>::Continue(())
            },
    {
        if major == 1 {
            ControlFlow::Break(())
        } else {
            ControlFlow::Continue(())
        }
    }
}

/// The scan state after reading `comments` in order, starting from `m`.
pub open spec fn scan_comments(m: ScanModel, comments: Seq<Seq<char>>) -> ScanModel
    decreases comments.len(),
{
    if comments.len() == 0 {
        m
    } else {
        scan_comment(scan_comments(m, comments.drop_last()), comments.last())
    }
}

/// The thumbnail that `comment` completes, if it closes an open block.
pub open spec fn completed_by(m: ScanModel, comment: Seq<char>) -> Seq<ThumbnailModel> {
    let content = trim_comment(comment);
    if parse_thumbnail_begin(content) is None && content == end_marker() && m.current is Some {
        seq![m.current->0]
    } else {
        Seq::empty()
    }
}

/// The thumbnails that `comments` complete, in the order they are completed.
pub open spec fn completed_thumbnails(m: ScanModel, comments: Seq<Seq<char>>) -> Seq<
    ThumbnailModel,
>
    decreases comments.len(),
{
    if comments.len() == 0 {
        Seq::empty()
    } else {
        completed_thumbnails(m, comments.drop_last()) + completed_by(
            scan_comments(m, comments.drop_last()),
            comments.last(),
        )
    }
}

/// The largest thumbnail wins: after any sequence of comments, the scan holds a
/// best thumbnail exactly when some block was completed, and that thumbnail is
/// the first completed block with the greatest number of pixels.
pub proof fn lemma_best_is_first_largest(comments: Seq<Seq<char>>)
    ensures
        ({
            let best = scan_comments(initial_scan(), comments).best;
            let done = completed_thumbnails(initial_scan(), comments);
            &&& best is None <==> done.len() == 0
            &&& best matches Some(b) ==> forall|j: int|
                0 <= j < done.len() ==> (#[trigger] done[j]).width * done[j].height <= b.width
                    * b.height
            &&& best matches Some(b) ==> exists|i: int|
                0 <= i < done.len() && done[i] == b && forall|j: int|
                    0 <= j < i ==> (#[trigger] done[j]).width * done[j].height < b.width
                        * b.height
        }),
    decreases comments.len(),
{
    if comments.len() > 0 {
        let rest = comments.drop_last();
        lemma_best_is_first_largest(rest);
        let prev = scan_comments(initial_scan(), rest);
        let done_before = completed_thumbnails(initial_scan(), rest);
        let added = completed_by(prev, comments.last());
        let done = completed_thumbnails(initial_scan(), comments);
        let best = scan_comments(initial_scan(), comments).best;
        assert(done == done_before + added);
        if added.len() == 0 {
            assert(done =~= done_before);
            assert(best == prev.best);
        } else {
            let t = prev.current->0;
            assert(added == seq![t]);
            assert(done[done.len() - 1] == t);
            assert(forall|j: int| 0 <= j < done_before.len() ==> done[j] == done_before[j]);
            if replaces_best(t, prev.best) {
                assert(best == Some(t));
                assert(forall|j: int|
                    0 <= j < done.len() - 1 ==> (#[trigger] done[j]).width * done[j].height
                        < t.width * t.height);
            } else {
                let b = prev.best->0;
                assert(best == Some(b));
                let i = choose|i: int|
                    0 <= i < done_before.len() && done_before[i] == b && forall|j: int|
                        0 <= j < i ==> (#[trigger] done_before[j]).width * done_before[j].height
                            < b.width * b.height;
                assert(done[i] == b);
                assert(forall|j: int|
                    0 <= j < i ==> (#[trigger] done[j]).width * done[j].height < b.width
                        * b.height);
            }
        }
    }
}

/// Reading a comment never lowers the pixel count of the best thumbnail, and
/// never drops it.
pub proof fn lemma_best_never_shrinks(m: ScanModel, comment: Seq<char>)
    ensures
        m.best matches Some(b) ==> scan_comment(m, comment).best matches Some(nb) && area(b) <= area(
            nb,
        ),
{
}

/// An end marker with no open block leaves the scan as it was.
pub proof fn lemma_unmatched_end_is_ignored(m: ScanModel, comment: Seq<char>)
    requires
        m.current is None,
        trim_comment(comment) == end_marker(),
    ensures
        scan_comment(m, comment) == m,
{
    lemma_end_marker_is_not_a_header();
}

/// The end marker never reads as a block header.
pub proof fn lemma_end_marker_is_not_a_header()
    ensures
        parse_thumbnail_begin(end_marker()) is None,
{
    reveal_strlit("thumbnail begin ");
    reveal_strlit("thumbnail end");
}

/// The contents of `lines` without their comment padding, joined in order.
pub open spec fn joined_contents(lines: Seq<Seq<char>>) -> Seq<char>
    decreases lines.len(),
{
    if lines.len() == 0 {
        Seq::empty()
    } else {
        joined_contents(lines.drop_last()) + trim_comment(lines.last())
    }
}

/// Whether a comment is neither a block header nor an end marker.
pub open spec fn is_data_comment(comment: Seq<char>) -> bool {
    parse_thumbnail_begin(trim_comment(comment)) is None && trim_comment(comment) != end_marker()
}

/// A header followed by data comments leaves an open block of the header's
/// dimensions whose data is the joined contents of the data comments.
pub proof fn lemma_block_collects_data(
    m: ScanModel,
    header: Seq<char>,
    width: u32,
    height: u32,
    lines: Seq<Seq<char>>,
)
    requires
        parse_thumbnail_begin(trim_comment(header)) == Some((width, height)),
        forall|i: int| 0 <= i < lines.len() ==> is_data_comment(#[trigger] lines[i]),
    ensures
        scan_comments(m, seq![header] + lines) == (ScanModel {
            best: m.best,
            current: Some(
                ThumbnailModel { width: width, height: height, data: joined_contents(lines) },
            ),
        }),
    decreases lines.len(),
{
    let all = seq![header] + lines;
    if lines.len() == 0 {
        assert(all.drop_last() =~= Seq::<Seq<char>>::empty());
        assert(all.last() == header);
        assert(scan_comments(m, all.drop_last()) == m);
        assert(joined_contents(lines) =~= Seq::<char>::empty());
    } else {
        let rest = lines.drop_last();
        lemma_block_collects_data(m, header, width, height, rest);
        assert(all.drop_last() =~= seq![header] + rest);
        assert(all.last() == lines.last());
        assert(is_data_comment(lines[lines.len() - 1]));
        assert(lines.last() == lines[lines.len() - 1]);
        assert(joined_contents(lines) == joined_contents(rest) + trim_comment(lines.last()));
    }
}

/// A complete block, header, data comments and end marker, completes exactly
/// one thumbnail: the header's dimensions with the joined data, and it becomes
/// the best thumbnail when it has more pixels than the previous best.
pub proof fn lemma_complete_block(
    m: ScanModel,
    header: Seq<char>,
    width: u32,
    height: u32,
    lines: Seq<Seq<char>>,
    footer: Seq<char>,
)
    requires
        parse_thumbnail_begin(trim_comment(header)) == Some((width, height)),
        forall|i: int| 0 <= i < lines.len() ==> is_data_comment(#[trigger] lines[i]),
        trim_comment(footer) == end_marker(),
    ensures
        ({
            let t = ThumbnailModel { width: width, height: height, data: joined_contents(lines) };
            let comments = seq![header] + lines + seq![footer];
            &&& completed_by(scan_comments(m, seq![header] + lines), footer) == seq![t]
            &&& scan_comments(m, comments) == (ScanModel {
                best: if replaces_best(t, m.best) {
                    Some(t)
                } else {
                    m.best
                },
                current: None,
            })
        }),
{
    lemma_block_collects_data(m, header, width, height, lines);
    lemma_end_marker_is_not_a_header();
    let comments = seq![header] + lines + seq![footer];
    assert(comments.drop_last() =~= seq![header] + lines);
    assert(comments.last() == footer);
}

/// A data line adds exactly its text to the open block: whatever run of `;`
/// and whitespace leads the comment, the rest of it, from its first other
/// character on, is appended unchanged.
pub proof fn lemma_data_line_appends_its_text(m: ScanModel, prefix: Seq<char>, text: Seq<char>)
    requires
        m.current is Some,
        forall|i: int| 0 <= i < prefix.len() ==> #[trigger] prefix[i] == ';' || spec_is_whitespace(
            prefix[i],
        ),
        text.len() > 0,
        text[0] != ';' && !spec_is_whitespace(text[0]),
        parse_thumbnail_begin(text) is None,
        text != end_marker(),
    ensures
        scan_comment(m, prefix + text) == (ScanModel {
            best: m.best,
            current: Some(
                ThumbnailModel {
                    width: m.current->0.width,
                    height: m.current->0.height,
                    data: m.current->0.data + text,
                },
            ),
        }),
{
    lemma_trim_comment_strips_only_padding(prefix, text);
}

/// The decimal notation of `n`, most significant digit first, without leading
/// zeros.
pub open spec fn decimal_notation(n: nat) -> Seq<char>
    decreases n,
{
    if n < 10 {
        seq![((0x30 + n) as u32) as char]
    } else {
        decimal_notation(n / 10).push(((0x30 + n % 10) as u32) as char)
    }
}

/// The decimal notation of a number reads back as that number, and holds
/// nothing but ASCII digits.
pub proof fn lemma_decimal_notation(n: nat)
    ensures
        decimal_notation(n).len() > 0,
        forall|i: int| 0 <= i < decimal_notation(n).len() ==> is_decimal_digit(
            #[trigger] decimal_notation(n)[i],
        ),
        decimal_value(decimal_notation(n)) == n,
    decreases n,
{
    let d = decimal_notation(n);
    if n < 10 {
        assert(d.drop_last() =~= Seq::<char>::empty());
        assert(digit_value(d.last()) == n);
        assert(decimal_value(d.drop_last()) == 0);
        assert(decimal_value(d) == decimal_value(d.drop_last()) * 10 + digit_value(d.last()));
    } else {
        lemma_decimal_notation(n / 10);
        let p = decimal_notation(n / 10);
        assert(d.drop_last() =~= p);
        assert(digit_value(d.last()) == n % 10);
        assert(decimal_value(d) == decimal_value(p) * 10 + digit_value(d.last()));
        assert((n / 10) * 10 + n % 10 == n) by (nonlinear_arith);
        assert forall|i: int| 0 <= i < d.len() implies is_decimal_digit(#[trigger] d[i]) by {
            if i < p.len() {
                assert(d[i] == p[i]);
            }
        }
    }
}

/// A number up to `u32::MAX` in decimal notation reads as that `u32`, with or
/// without a leading `+`.
pub proof fn lemma_parse_decimal_notation(n: u32)
    ensures
        spec_parse_u32(decimal_notation(n as nat)) == Some(n),
        spec_parse_u32(seq!['+'] + decimal_notation(n as nat)) == Some(n),
{
    lemma_decimal_notation(n as nat);
    let d = decimal_notation(n as nat);
    assert(is_decimal_digit(d[0]));
    assert(unsigned_digits(d) == d);
    assert((seq!['+'] + d).drop_first() =~= d);
}

/// A number above `u32::MAX` does not read as a `u32`.
pub proof fn lemma_parse_rejects_overflow(n: nat)
    requires
        n > u32::MAX,
    ensures
        spec_parse_u32(decimal_notation(n)) is None,
{
    lemma_decimal_notation(n);
    let d = decimal_notation(n);
    assert(is_decimal_digit(d[0]));
    assert(unsigned_digits(d) == d);
}

/// `split_once` splits at the first separator.
proof fn lemma_split_once_at(a: Seq<char>, sep: char, b: Seq<char>)
    requires
        !a.contains(sep),
    ensures
        split_once(a + seq![sep] + b, sep) == Some((a, b)),
{
    let s = a + seq![sep] + b;
    assert(s[a.len() as int] == sep);
    s.index_of_first_ensures(sep);
    let i = s.index_of_first(sep)->0;
    if i < a.len() {
        assert(s[i] == a[i]);
    }
    assert(s.take(a.len() as int) =~= a);
    assert(s.skip(a.len() as int + 1) =~= b);
}

/// Every header whose three numbers are `u32`s opens a block of the given
/// width and height, whatever the size number is.
pub proof fn lemma_header_opens_block(width: u32, height: u32, size: u32)
    ensures
        parse_thumbnail_begin(
            begin_marker() + decimal_notation(width as nat) + seq!['x'] + decimal_notation(
                height as nat,
            ) + seq![' '] + decimal_notation(size as nat),
        ) == Some((width, height)),
{
    reveal_strlit("thumbnail begin ");
    let w = decimal_notation(width as nat);
    let h = decimal_notation(height as nat);
    let s = decimal_notation(size as nat);
    lemma_decimal_notation(width as nat);
    lemma_decimal_notation(height as nat);
    lemma_decimal_notation(size as nat);
    lemma_parse_decimal_notation(width);
    lemma_parse_decimal_notation(height);
    lemma_parse_decimal_notation(size);
    let content = begin_marker() + w + seq!['x'] + h + seq![' '] + s;
    assert(begin_marker().is_prefix_of(content)) by {
        assert(content.subrange(0, begin_marker().len() as int) =~= begin_marker());
    }
    let meta = content.skip(begin_marker().len() as int);
    let dims = w + seq!['x'] + h;
    assert(meta =~= dims + seq![' '] + s);
    assert(!dims.contains(' ')) by {
        if dims.contains(' ') {
            let i = choose|i: int| 0 <= i < dims.len() && dims[i] == ' ';
            if i < w.len() {
                assert(dims[i] == w[i]);
            } else if i > w.len() {
                assert(dims[i] == h[i - w.len() - 1]);
            }
        }
    }
    lemma_split_once_at(dims, ' ', s);
    assert(!w.contains('x')) by {
        if w.contains('x') {
            let i = choose|i: int| 0 <= i < w.len() && w[i] == 'x';
            assert(is_decimal_digit(w[i]));
        }
    }
    lemma_split_once_at(w, 'x', h);
}

} // verus!
