//! How the text of a path is read as its parts, and how a text is continued by a
//! name, under the rules of the system that the path belongs to.
use crate::text;
use vstd::prelude::*;

verus! {

/// The system whose rules a path follows.
#[derive(Debug, Clone, Copy, PartialEq, Eq, Structural)]
pub enum PathStyle {
    Unix,
    Windows,
}

/// What a path of Windows begins with.
#[derive(Debug, Clone, Copy, PartialEq, Eq, Structural)]
pub enum PrefixKind {
    Verbatim,
    VerbatimUnc,
    VerbatimDrive,
    Device,
    Unc,
    Drive,
}

/// The beginning of a path that names a drive, a server or a device.
#[derive(Debug, Clone, Copy, PartialEq, Eq, Structural)]
pub struct PathPrefix {
    pub kind: PrefixKind,
    /// The number of characters that it takes in the text of the path.
    pub len: usize,
}

/// How the part of a path behind its prefix is read.
#[derive(Debug, Clone, Copy, PartialEq, Eq, Structural)]
pub enum PathRules {
    Unix,
    Windows,
    /// Behind a verbatim prefix only one of the separators is one, and a dot is
    /// a part.
    Verbatim,
}

/// A part of a path.
#[derive(Debug)]
pub enum PathPart {
    Prefix(String),
    Root,
    Current,
    Parent,
    Normal(String),
}

/// A part of a path, and where it stands in the text of the path.
#[derive(Debug)]
pub struct PlacedPart {
    pub part: PathPart,
    pub start: usize,
    pub end: usize,
}

/// A part of a path as the rank of its kind and its name.
pub type PartKey = (int, Seq<char>);

/// A part of a path and the characters that it takes.
pub struct Span {
    pub key: PartKey,
    pub start: int,
    pub end: int,
}

/// The key of a part.
pub open spec fn part_key(part: PathPart) -> PartKey {
    match part {
        PathPart::Prefix(name) => (0, name@),
        PathPart::Root => (1, Seq::empty()),
        PathPart::Current => (2, Seq::empty()),
        PathPart::Parent => (3, Seq::empty()),
        PathPart::Normal(name) => (4, name@),
    }
}

/// What parts with their places are.
pub open spec fn spans(parts: Seq<PlacedPart>) -> Seq<Span> {
    Seq::new(
        parts.len(),
        |i: int|
            Span {
                key: part_key(parts[i].part),
                start: parts[i].start as int,
                end: parts[i].end as int,
            },
    )
}

/// The keys of parts.
pub open spec fn span_keys(list: Seq<Span>) -> Seq<PartKey> {
    Seq::new(list.len(), |i: int| list[i].key)
}

/// Whether a prefix is taken as it is written.
pub open spec fn is_verbatim(prefix: Option<PathPrefix>) -> bool {
    prefix matches Some(p) && (p.kind == PrefixKind::Verbatim || p.kind == PrefixKind::VerbatimUnc
        || p.kind == PrefixKind::VerbatimDrive)
}

/// Whether a path with the prefix has a root even where none is written.
pub open spec fn implies_root(prefix: Option<PathPrefix>) -> bool {
    prefix matches Some(p) && p.kind != PrefixKind::Drive
}

/// The number of characters that a prefix takes.
pub open spec fn prefix_len(prefix: Option<PathPrefix>) -> int {
    match prefix {
        Some(p) => p.len as int,
        None => 0,
    }
}

/// The rules for what stands behind a prefix.
pub open spec fn rules_of(style: PathStyle, prefix: Option<PathPrefix>) -> PathRules {
    match style {
        PathStyle::Unix => PathRules::Unix,
        PathStyle::Windows => if is_verbatim(prefix) {
            PathRules::Verbatim
        } else {
            PathRules::Windows
        },
    }
}

/// The separator that is written between two parts.
pub open spec fn main_separator(style: PathStyle) -> char {
    match style {
        PathStyle::Unix => '/',
        PathStyle::Windows => '\\',
    }
}

/// Whether a character separates parts.
pub open spec fn is_separator(c: char, rules: PathRules) -> bool {
    match rules {
        PathRules::Unix => c == '/',
        PathRules::Windows => c == '/' || c == '\\',
        PathRules::Verbatim => c == '\\',
    }
}

/// Whether a character at the beginning or the end of a text counts as a
/// separator, whatever the prefix.
pub open spec fn is_slash(c: char, style: PathStyle) -> bool {
    is_separator(
        c,
        match style {
            PathStyle::Unix => PathRules::Unix,
            PathStyle::Windows => PathRules::Windows,
        },
    )
}

/// Where the next separator stands from `from` on, or the end of the text.
pub open spec fn next_separator(text: Seq<char>, from: int, rules: PathRules) -> int
    decreases text.len() - from,
{
    if from >= text.len() {
        text.len() as int
    } else if is_separator(text[from], rules) {
        from
    } else {
        next_separator(text, from + 1, rules)
    }
}

/// The next separator is found, and none stands before it.
pub proof fn lemma_next_separator(text: Seq<char>, from: int, rules: PathRules)
    requires
        from <= text.len(),
    ensures
        from <= next_separator(text, from, rules) <= text.len(),
        forall|k: int|
            from <= k < next_separator(text, from, rules) ==> !is_separator(
                #[trigger] text[k],
                rules,
            ),
        next_separator(text, from, rules) < text.len() ==> is_separator(
            text[next_separator(text, from, rules)],
            rules,
        ),
    decreases text.len() - from,
{
    if from < text.len() && !is_separator(text[from], rules) {
        lemma_next_separator(text, from + 1, rules);
    }
}

/// The part that a piece between two separators is; nothing for an empty piece,
/// and for a dot that is passed over.
pub open spec fn piece_key(piece: Seq<char>, rules: PathRules) -> Option<PartKey> {
    if piece.len() == 0 {
        None
    } else if piece == seq!['.'] {
        if rules == PathRules::Verbatim {
            Some((2, Seq::empty()))
        } else {
            None
        }
    } else if piece == seq!['.', '.'] {
        Some((3, Seq::empty()))
    } else {
        Some((4, piece))
    }
}

/// The parts that stand in a text from `from` on.
pub open spec fn body_spans(text: Seq<char>, from: int, rules: PathRules) -> Seq<Span>
    decreases text.len() + 1 - from,
{
    if from >= text.len() {
        Seq::empty()
    } else {
        proof {
            lemma_next_separator(text, from, rules);
        }
        let end = next_separator(text, from, rules);
        let rest = body_spans(text, end + 1, rules);
        match piece_key(text.subrange(from, end), rules) {
            Some(key) => seq![Span { key, start: from, end }] + rest,
            None => rest,
        }
    }
}

/// The number that stands for a kind of prefixes.
pub open spec fn kind_char(kind: PrefixKind) -> char {
    match kind {
        PrefixKind::Verbatim => '0',
        PrefixKind::VerbatimUnc => '1',
        PrefixKind::VerbatimDrive => '2',
        PrefixKind::Device => '3',
        PrefixKind::Unc => '4',
        PrefixKind::Drive => '5',
    }
}

/// A character of a prefix as prefixes are compared: separators come before all
/// other characters, and the letter of a drive is in upper case.
pub open spec fn prefix_char(c: char, kind: PrefixKind) -> char {
    if c == '\\' || c == '/' && kind != PrefixKind::Verbatim {
        '\0'
    } else if (kind == PrefixKind::Drive || kind == PrefixKind::VerbatimDrive) && 'a' <= c <= 'z' {
        (c as u32 - 32) as char
    } else {
        c
    }
}

/// What tells a prefix from others.
pub open spec fn prefix_name(text: Seq<char>, prefix: PathPrefix) -> Seq<char> {
    seq![kind_char(prefix.kind)] + text.take(prefix.len as int).map_values(
        |c: char| prefix_char(c, prefix.kind),
    )
}

/// Whether a root is written behind the prefix.
pub open spec fn has_written_root(
    text: Seq<char>,
    prefix: Option<PathPrefix>,
    style: PathStyle,
) -> bool {
    prefix_len(prefix) < text.len() && is_slash(text[prefix_len(prefix)], style)
}

/// Where what follows the prefix and the root begins.
pub open spec fn body_start(
    text: Seq<char>,
    prefix: Option<PathPrefix>,
    style: PathStyle,
) -> int {
    if has_written_root(text, prefix, style) {
        prefix_len(prefix) + 1
    } else {
        prefix_len(prefix)
    }
}

/// The prefix of a path as a part.
pub open spec fn prefix_spans(text: Seq<char>, prefix: Option<PathPrefix>) -> Seq<Span> {
    match prefix {
        Some(p) => seq![Span { key: (0, prefix_name(text, p)), start: 0, end: p.len as int }],
        None => Seq::empty(),
    }
}

/// Whether a path without a root begins with a dot, which is a part there.
pub open spec fn begins_with_dot(
    text: Seq<char>,
    prefix: Option<PathPrefix>,
    style: PathStyle,
) -> bool {
    let from = prefix_len(prefix);
    from < text.len() && text.subrange(from, next_separator(text, from, rules_of(style, prefix)))
        == seq!['.']
}

/// The root of a path, or the dot that it begins with.
pub open spec fn root_spans(
    text: Seq<char>,
    prefix: Option<PathPrefix>,
    style: PathStyle,
) -> Seq<Span> {
    let from = prefix_len(prefix);
    if has_written_root(text, prefix, style) {
        seq![Span { key: (1, Seq::empty()), start: from, end: from + 1 }]
    } else if implies_root(prefix) {
        if is_verbatim(prefix) {
            Seq::empty()
        } else {
            seq![Span { key: (1, Seq::empty()), start: from, end: from }]
        }
    } else if begins_with_dot(text, prefix, style) {
        seq![Span { key: (2, Seq::empty()), start: from, end: from + 1 }]
    } else {
        Seq::empty()
    }
}

/// The parts of a path: its prefix, its root, and its pieces between separators.
/// Empty pieces and dots are passed over, but for a dot at the beginning.
pub open spec fn read_spans(
    text: Seq<char>,
    prefix: Option<PathPrefix>,
    style: PathStyle,
) -> Seq<Span> {
    prefix_spans(text, prefix) + root_spans(text, prefix, style) + body_spans(
        text,
        body_start(text, prefix, style),
        rules_of(style, prefix),
    )
}

/// Whether a prefix can be that of a text: only paths of Windows have one, all
/// but drives end where a separator stands or the text ends, and the name of a
/// device or of a share is not empty.
pub open spec fn prefix_fits(text: Seq<char>, prefix: Option<PathPrefix>, style: PathStyle) -> bool {
    prefix matches Some(p) ==> {
        &&& style == PathStyle::Windows
        &&& 0 < p.len <= text.len()
        &&& p.kind != PrefixKind::Drive ==> p.len == text.len() || is_slash(
            text[p.len as int],
            style,
        )
        &&& p.kind == PrefixKind::Device || p.kind == PrefixKind::Unc ==> !is_slash(
            text[p.len - 1],
            style,
        )
    }
}

/// The next separator is where no separator stands before it.
proof fn lemma_next_separator_is(text: Seq<char>, from: int, at: int, rules: PathRules)
    requires
        0 <= from <= at <= text.len(),
        forall|k: int| from <= k < at ==> !is_separator(#[trigger] text[k], rules),
        at < text.len() ==> is_separator(text[at], rules),
    ensures
        next_separator(text, from, rules) == at,
    decreases at - from,
{
    if from < at {
        lemma_next_separator_is(text, from + 1, at, rules);
    }
}

/// Reading a text that is continued by a piece: the parts stay, and the piece is
/// one more. Between the text and the piece stands a separator, or the text
/// ends with one, or nothing of it is read.
proof fn lemma_continued(
    before: Seq<char>,
    glue: Seq<char>,
    piece: Seq<char>,
    from: int,
    rules: PathRules,
)
    requires
        0 <= from <= before.len(),
        piece_key(piece, rules) is Some,
        forall|k: int| 0 <= k < piece.len() ==> !is_separator(#[trigger] piece[k], rules),
        glue.len() == 1 && is_separator(glue[0], rules) || glue.len() == 0 && (from == before.len()
            || is_separator(before.last(), rules)),
    ensures
        body_spans(before + glue + piece, from, rules) == body_spans(before, from, rules).push(
            Span {
                key: piece_key(piece, rules)->Some_0,
                start: (before.len() + glue.len()) as int,
                end: (before.len() + glue.len() + piece.len()) as int,
            },
        ),
    decreases before.len() - from,
{
    let after = before + glue + piece;
    let begin = (before.len() + glue.len()) as int;
    lemma_next_separator_is(after, begin, after.len() as int, rules);
    assert(after.subrange(begin, after.len() as int) =~= piece);
    assert(body_spans(after, after.len() as int + 1, rules) =~= Seq::empty());
    assert(body_spans(after, begin, rules) =~= seq![
        Span {
            key: piece_key(piece, rules)->Some_0,
            start: begin,
            end: after.len() as int,
        },
    ]);
    let end = next_separator(before, from, rules);
    lemma_next_separator(before, from, rules);
    assert forall|k: int| from <= k < end implies !is_separator(#[trigger] after[k], rules) by {
        assert(after[k] == before[k]);
    }
    if from == before.len() {
        if glue.len() == 1 {
            assert(after[from] == glue[0]);
            assert(next_separator(after, from, rules) == from);
            assert(after.subrange(from, from) =~= Seq::empty());
            assert(body_spans(after, from, rules) =~= body_spans(after, begin, rules));
        }
        assert(body_spans(before, from, rules) =~= Seq::empty());
    } else {
        if end < before.len() {
            assert(after[end] == before[end]);
        } else if glue.len() == 1 {
            assert(after[end] == glue[0]);
        } else {
            assert(!is_separator(before[before.len() - 1], rules));
        }
        lemma_next_separator_is(after, from, end, rules);
        assert(after.subrange(from, end) =~= before.subrange(from, end));
        if end < before.len() {
            lemma_continued(before, glue, piece, end + 1, rules);
        } else {
            assert(body_spans(before, end + 1, rules) =~= Seq::empty());
        }
        assert(body_spans(after, from, rules) =~= body_spans(before, from, rules).push(
            Span {
                key: piece_key(piece, rules)->Some_0,
                start: begin,
                end: after.len() as int,
            },
        ));
    }
}

/// Each part of a text stands where it is said to, without a separator in it.
proof fn lemma_body_spans(text: Seq<char>, from: int, rules: PathRules)
    requires
        0 <= from,
    ensures
        forall|i: int|
            0 <= i < body_spans(text, from, rules).len() ==> {
                let span = #[trigger] body_spans(text, from, rules)[i];
                &&& from <= span.start < span.end <= text.len()
                &&& piece_key(text.subrange(span.start, span.end), rules) == Some(span.key)
                &&& forall|k: int|
                    span.start <= k < span.end ==> !is_separator(#[trigger] text[k], rules)
            },
    decreases text.len() + 1 - from,
{
    if from < text.len() {
        let end = next_separator(text, from, rules);
        lemma_next_separator(text, from, rules);
        lemma_body_spans(text, end + 1, rules);
        let piece = text.subrange(from, end);
        let rest = body_spans(text, end + 1, rules);
        let all = body_spans(text, from, rules);
        assert forall|i: int| 0 <= i < all.len() implies {
            let span = #[trigger] all[i];
            &&& from <= span.start < span.end <= text.len()
            &&& piece_key(text.subrange(span.start, span.end), rules) == Some(span.key)
            &&& forall|k: int|
                span.start <= k < span.end ==> !is_separator(#[trigger] text[k], rules)
        } by {
            match piece_key(piece, rules) {
                Some(key) => {
                    if i > 0 {
                        assert(all[i] == rest[i - 1]);
                    }
                },
                None => {
                    assert(all[i] == rest[i]);
                },
            }
        }
    }
}

/// The parts of a text stand in it one after the other.
proof fn lemma_body_order(text: Seq<char>, from: int, rules: PathRules)
    requires
        0 <= from,
    ensures
        forall|i: int|
            0 <= i < body_spans(text, from, rules).len() ==> (#[trigger] body_spans(
                text,
                from,
                rules,
            )[i]).end <= body_spans(text, from, rules).last().end,
        forall|i: int, j: int|
            0 <= i <= j < body_spans(text, from, rules).len() ==> (#[trigger] body_spans(
                text,
                from,
                rules,
            )[i]).start <= (#[trigger] body_spans(text, from, rules)[j]).start,
    decreases text.len() + 1 - from,
{
    if from < text.len() {
        let end = next_separator(text, from, rules);
        lemma_next_separator(text, from, rules);
        lemma_body_order(text, end + 1, rules);
        lemma_body_spans(text, end + 1, rules);
        let rest = body_spans(text, end + 1, rules);
        let all = body_spans(text, from, rules);
        assert forall|i: int| 0 <= i < all.len() implies (#[trigger] all[i]).end
            <= all.last().end by {
            if piece_key(text.subrange(from, end), rules) is Some {
                if rest.len() > 0 {
                    assert(all.last() == rest.last());
                    assert(rest[rest.len() - 1].start >= end + 1);
                    if i > 0 {
                        assert(all[i] == rest[i - 1]);
                    }
                }
            } else {
                assert(all[i] == rest[i]);
            }
        }
        assert forall|i: int, j: int| 0 <= i <= j < all.len() implies (#[trigger] all[i]).start
            <= (#[trigger] all[j]).start by {
            if piece_key(text.subrange(from, end), rules) is Some {
                if j > 0 {
                    assert(all[j] == rest[j - 1]);
                }
                if i > 0 {
                    assert(all[i] == rest[i - 1]);
                }
            } else {
                assert(all[i] == rest[i]);
                assert(all[j] == rest[j]);
            }
        }
    }
}

/// The parts of a path stand in its text one after the other.
pub proof fn lemma_read_order(text: Seq<char>, prefix: Option<PathPrefix>, style: PathStyle)
    requires
        prefix_fits(text, prefix, style),
    ensures
        forall|i: int|
            0 <= i < read_spans(text, prefix, style).len() ==> {
                let span = #[trigger] read_spans(text, prefix, style)[i];
                &&& 0 <= span.start <= span.end <= text.len()
                &&& span.start <= read_spans(text, prefix, style).last().end
            },
        forall|i: int, j: int|
            0 <= i <= j < read_spans(text, prefix, style).len() ==> (#[trigger] read_spans(
                text,
                prefix,
                style,
            )[i]).start <= (#[trigger] read_spans(text, prefix, style)[j]).start,
{
    let from = body_start(text, prefix, style);
    let rules = rules_of(style, prefix);
    let p = prefix_len(prefix);
    lemma_body_spans(text, from, rules);
    lemma_body_order(text, from, rules);
    lemma_next_separator(text, p, rules);
    let head = prefix_spans(text, prefix) + root_spans(text, prefix, style);
    let body = body_spans(text, from, rules);
    let all = read_spans(text, prefix, style);
    assert(all =~= head + body);
    assert forall|i: int| 0 <= i < head.len() implies {
        let span = #[trigger] head[i];
        &&& 0 <= span.start <= p
        &&& span.start <= span.end <= text.len()
        &&& p <= span.end
    } by {
        if begins_with_dot(text, prefix, style) {
            assert(text.subrange(p, next_separator(text, p, rules)).len() == 1);
        }
    }
    assert forall|i: int| 0 <= i < all.len() implies {
        let span = #[trigger] all[i];
        &&& 0 <= span.start <= span.end <= text.len()
        &&& span.start <= all.last().end
    } by {
        if body.len() > 0 {
            assert(all.last() == body[body.len() - 1]);
        } else {
            assert(all.last() == head[head.len() - 1]);
        }
        if i < head.len() {
            assert(all[i] == head[i]);
        } else {
            assert(all[i] == body[i - head.len()]);
        }
    }
    assert forall|i: int, j: int| 0 <= i <= j < all.len() implies (#[trigger] all[i]).start
        <= (#[trigger] all[j]).start by {
        if j < head.len() {
            assert(all[i] == head[i]);
            assert(all[j] == head[j]);
        } else {
            assert(all[j] == body[j - head.len()]);
            if i < head.len() {
                assert(all[i] == head[i]);
            } else {
                assert(all[i] == body[i - head.len()]);
            }
        }
    }
}

/// Parts that stand further to the left.
pub open spec fn shifted(list: Seq<Span>, by: int) -> Seq<Span> {
    Seq::new(
        list.len(),
        |i: int| Span { key: list[i].key, start: list[i].start - by, end: list[i].end - by },
    )
}

/// Reading from where a part begins gives that part and those behind it.
proof fn lemma_from_part(text: Seq<char>, from: int, n: int, rules: PathRules)
    requires
        0 <= from,
        0 <= n < body_spans(text, from, rules).len(),
    ensures
        body_spans(text, body_spans(text, from, rules)[n].start, rules) == body_spans(
            text,
            from,
            rules,
        ).skip(n),
    decreases text.len() + 1 - from,
{
    if from < text.len() {
        let end = next_separator(text, from, rules);
        lemma_next_separator(text, from, rules);
        let all = body_spans(text, from, rules);
        let rest = body_spans(text, end + 1, rules);
        if piece_key(text.subrange(from, end), rules) is Some {
            if n > 0 {
                lemma_from_part(text, end + 1, n - 1, rules);
                assert(all[n] == rest[n - 1]);
                assert(all.skip(n) =~= rest.skip(n - 1));
            } else {
                assert(all.skip(0) =~= all);
            }
        } else {
            lemma_from_part(text, end + 1, n, rules);
        }
    }
}

/// What stands behind the last part is passed over.
proof fn lemma_cut(text: Seq<char>, from: int, to: int, rules: PathRules)
    requires
        0 <= from <= to <= text.len(),
        to < text.len() ==> is_separator(text[to], rules),
        forall|i: int|
            0 <= i < body_spans(text, from, rules).len() ==> (#[trigger] body_spans(
                text,
                from,
                rules,
            )[i]).end <= to,
    ensures
        body_spans(text.take(to), from, rules) == body_spans(text, from, rules),
    decreases to - from,
{
    let cut = text.take(to);
    let end = next_separator(text, from, rules);
    lemma_next_separator(text, from, rules);
    let all = body_spans(text, from, rules);
    if from == to {
        if from < text.len() {
            lemma_body_spans(text, from, rules);
            if all.len() > 0 {
                assert(all[0].end <= to);
            }
        }
        assert(all =~= Seq::empty());
        assert(body_spans(cut, from, rules) =~= Seq::empty());
    } else {
        assert(end <= to) by {
            if end > to {
                assert(!is_separator(text[to], rules));
            }
        }
        assert forall|k: int| from <= k < end implies !is_separator(#[trigger] cut[k], rules) by {
            assert(cut[k] == text[k]);
        }
        if end < to {
            assert(cut[end] == text[end]);
        }
        lemma_next_separator_is(cut, from, end, rules);
        assert(cut.subrange(from, end) =~= text.subrange(from, end));
        let rest = body_spans(text, end + 1, rules);
        assert forall|i: int| 0 <= i < rest.len() implies (#[trigger] rest[i]).end <= to by {
            if piece_key(text.subrange(from, end), rules) is Some {
                assert(all[i + 1] == rest[i]);
            } else {
                assert(all[i] == rest[i]);
            }
        }
        if end < to {
            lemma_cut(text, end + 1, to, rules);
        } else {
            lemma_body_spans(text, end + 1, rules);
            if rest.len() > 0 {
                assert(rest[0].end <= to);
            }
            assert(rest =~= Seq::empty());
            assert(body_spans(cut, end + 1, rules) =~= Seq::empty());
        }
    }
}

/// Reading a text without its beginning gives the same parts, further to the
/// left.
proof fn lemma_shifted(text: Seq<char>, by: int, from: int, rules: PathRules)
    requires
        0 <= by <= from,
        by <= text.len(),
    ensures
        body_spans(text.skip(by), from - by, rules) == shifted(body_spans(text, from, rules), by),
    decreases text.len() + 1 - from,
{
    let rest = text.skip(by);
    if from < text.len() {
        let end = next_separator(text, from, rules);
        lemma_next_separator(text, from, rules);
        assert forall|k: int| from - by <= k < end - by implies !is_separator(
            #[trigger] rest[k],
            rules,
        ) by {
            assert(rest[k] == text[k + by]);
        }
        if end < text.len() {
            assert(rest[end - by] == text[end]);
        }
        lemma_next_separator_is(rest, from - by, end - by, rules);
        assert(rest.subrange(from - by, end - by) =~= text.subrange(from, end));
        lemma_shifted(text, by, end + 1, rules);
    }
    assert(body_spans(rest, from - by, rules) =~= shifted(body_spans(text, from, rules), by));
}

/// The number of parts that the prefix and the root of a path are.
pub open spec fn head_len(text: Seq<char>, prefix: Option<PathPrefix>, style: PathStyle) -> int {
    (prefix_spans(text, prefix).len() + root_spans(text, prefix, style).len()) as int
}

/// The text of the parts from number `n` on.
pub open spec fn text_from(text: Seq<char>, list: Seq<Span>, n: int) -> Seq<char> {
    if 0 <= n < list.len() {
        text.subrange(list[n].start, list.last().end)
    } else {
        Seq::empty()
    }
}

/// The parts from number `n` on, as they stand in their own text.
pub open spec fn parts_from(list: Seq<Span>, n: int) -> Seq<Span> {
    if 0 <= n < list.len() {
        shifted(list.skip(n), list[n].start)
    } else {
        Seq::empty()
    }
}

/// The text of the parts behind the prefix and the root is read as those parts.
pub proof fn lemma_text_from(
    text: Seq<char>,
    prefix: Option<PathPrefix>,
    style: PathStyle,
    n: int,
)
    requires
        prefix_fits(text, prefix, style),
        !is_verbatim(prefix),
        head_len(text, prefix, style) <= n,
    ensures
        ({
            let list = read_spans(text, prefix, style);
            read_spans(text_from(text, list, n), None, style) == parts_from(list, n)
        }),
{
    let list = read_spans(text, prefix, style);
    let from = body_start(text, prefix, style);
    let rules = rules_of(style, prefix);
    let body = body_spans(text, from, rules);
    let h = head_len(text, prefix, style);
    let part = text_from(text, list, n);
    if n < list.len() {
        assert(list[n] == body[n - h]);
        assert(list.last() == body.last());
        assert(body.last() == body[body.len() - 1]);
        let s = body[n - h].start;
        let e = body.last().end;
        lemma_body_spans(text, from, rules);
        lemma_body_order(text, from, rules);
        lemma_from_part(text, from, n - h, rules);
        let some = body_spans(text, s, rules);
        assert(some == body.skip(n - h));
        assert forall|i: int| 0 <= i < some.len() implies (#[trigger] some[i]).end <= e by {
            assert(some[i] == body[n - h + i]);
        }
        lemma_span_ends(text, from, body.len() - 1, rules);
        lemma_cut(text, s, e, rules);
        lemma_shifted(text.take(e), s, s, rules);
        assert(text.take(e).skip(s) =~= part);
        assert(body_spans(part, 0, rules) == shifted(some, s));
        assert(list.skip(n) =~= some);
        let first = body[n - h];
        assert(part[0] == text[s]);
        assert(!is_separator(text[s], rules));
        lemma_span_ends(text, from, n - h, rules);
        let width = first.end - s;
        assert forall|k: int| 0 <= k < width implies !is_separator(#[trigger] part[k], rules) by {
            assert(part[k] == text[s + k]);
        }
        if width < part.len() {
            assert(part[width] == text[first.end]);
        }
        lemma_next_separator_is(part, 0, width, rules);
        assert(part.subrange(0, width) =~= text.subrange(s, first.end));
        assert(piece_key(seq!['.'], rules) is None);
        assert(root_spans(part, None, style) =~= Seq::empty());
        assert(read_spans(part, None, style) =~= parts_from(list, n));
    } else {
        assert(read_spans(part, None, style) =~= parts_from(list, n));
    }
}

/// A part ends where a separator stands, or the text ends.
proof fn lemma_span_ends(text: Seq<char>, from: int, n: int, rules: PathRules)
    requires
        0 <= from,
        0 <= n < body_spans(text, from, rules).len(),
    ensures
        body_spans(text, from, rules)[n].end < text.len() ==> is_separator(
            text[body_spans(text, from, rules)[n].end],
            rules,
        ),
    decreases text.len() + 1 - from,
{
    if from < text.len() {
        let end = next_separator(text, from, rules);
        lemma_next_separator(text, from, rules);
        let all = body_spans(text, from, rules);
        let rest = body_spans(text, end + 1, rules);
        if piece_key(text.subrange(from, end), rules) is Some {
            if n > 0 {
                lemma_span_ends(text, end + 1, n - 1, rules);
                assert(all[n] == rest[n - 1]);
            }
        } else {
            lemma_span_ends(text, end + 1, n, rules);
        }
    }
}

/// A text that holds no separator of parts, under the rules of a system.
pub open spec fn is_plain(name: Seq<char>, style: PathStyle) -> bool {
    forall|k: int| 0 <= k < name.len() ==> #[trigger] name[k] != main_separator(style)
}

/// No part of a path holds the separator that is written between two of them.
pub proof fn lemma_plain_parts(text: Seq<char>, prefix: Option<PathPrefix>, style: PathStyle)
    requires
        prefix_fits(text, prefix, style),
    ensures
        forall|i: int|
            0 <= i < read_spans(text, prefix, style).len() ==> {
                let key = (#[trigger] read_spans(text, prefix, style)[i]).key;
                0 <= key.0 <= 4 && is_plain(key.1, style)
            },
{
    let from = body_start(text, prefix, style);
    let rules = rules_of(style, prefix);
    lemma_body_spans(text, from, rules);
    let head = prefix_spans(text, prefix);
    let root = root_spans(text, prefix, style);
    let body = body_spans(text, from, rules);
    let all = read_spans(text, prefix, style);
    assert(all =~= head + root + body);
    assert forall|i: int| 0 <= i < all.len() implies {
        let key = (#[trigger] all[i]).key;
        0 <= key.0 <= 4 && is_plain(key.1, style)
    } by {
        if i < head.len() {
            assert(all[i] == head[i]);
            let p = prefix->Some_0;
            let name = prefix_name(text, p);
            assert forall|k: int| 0 <= k < name.len() implies #[trigger] name[k]
                != main_separator(style) by {
                if k > 0 {
                    assert(name[k] == prefix_char(text[k - 1], p.kind));
                }
            }
        } else if i < head.len() + root.len() {
            assert(all[i] == root[i - head.len()]);
        } else {
            let span = body[i - head.len() - root.len()];
            assert(all[i] == span);
            let piece = text.subrange(span.start, span.end);
            assert forall|k: int| 0 <= k < piece.len() implies #[trigger] piece[k]
                != main_separator(style) by {
                assert(piece[k] == text[span.start + k]);
                assert(!is_separator(text[span.start + k], rules));
            }
        }
    }
}

/// Whether a text is the name of a single file or directory.
pub open spec fn is_name(name: Seq<char>) -> bool {
    &&& name.len() > 0
    &&& name != seq!['.']
    &&& name != seq!['.', '.']
    &&& forall|k: int|
        0 <= k < name.len() ==> #[trigger] name[k] != '/' && name[k] != '\\' && name[k] != ':'
}

/// A text of more than two characters is a name if it holds no separator and no
/// colon.
pub proof fn lemma_long_name(name: Seq<char>)
    requires
        name.len() > 2,
        forall|k: int|
            0 <= k < name.len() ==> #[trigger] name[k] != '/' && name[k] != '\\' && name[k] != ':',
    ensures
        is_name(name),
{
    assert(seq!['.'].len() == 1);
    assert(seq!['.', '.'].len() == 2);
}

/// Parts as they are written behind a verbatim prefix.
pub open spec fn rewritten(text: Seq<char>, list: Seq<Span>) -> Seq<char>
    decreases list.len(),
{
    if list.len() == 0 {
        Seq::empty()
    } else {
        rewritten(text, list.drop_last()).push('\\') + text.subrange(
            list.last().start,
            list.last().end,
        )
    }
}

/// Whether a name is written right behind a text: behind nothing, behind a
/// separator, and behind a drive.
pub open spec fn needs_no_separator(
    text: Seq<char>,
    prefix: Option<PathPrefix>,
    style: PathStyle,
) -> bool {
    ||| text.len() == 0
    ||| is_slash(text.last(), style)
    ||| prefix matches Some(p) && p.kind == PrefixKind::Drive && p.len == text.len()
}

/// How a path is written that continues another one with a name. Behind a
/// verbatim prefix the parts are written anew.
pub open spec fn joined_text(
    text: Seq<char>,
    prefix: Option<PathPrefix>,
    style: PathStyle,
    name: Seq<char>,
) -> Seq<char> {
    if is_verbatim(prefix) {
        let body = body_spans(text, body_start(text, prefix, style), PathRules::Verbatim);
        (text.take(prefix_len(prefix)) + rewritten(text, body)).push('\\') + name
    } else if needs_no_separator(text, prefix, style) {
        text + name
    } else {
        text.push(main_separator(style)) + name
    }
}

/// Whether nothing stands behind a verbatim prefix, not even a root.
pub open spec fn is_bare_verbatim(text: Seq<char>, prefix: Option<PathPrefix>) -> bool {
    is_verbatim(prefix) && prefix_len(prefix) == text.len()
}

/// The parts of a path that continues one with the parts `keys` with a name. A
/// bare verbatim prefix gets a root.
pub open spec fn joined_keys(keys: Seq<PartKey>, bare: bool, name: Seq<char>) -> Seq<PartKey> {
    if bare {
        keys.push((1, Seq::empty())).push((4, name))
    } else {
        keys.push((4, name))
    }
}

/// A name is a piece under all rules.
proof fn lemma_name(name: Seq<char>, rules: PathRules)
    requires
        is_name(name),
    ensures
        piece_key(name, rules) == Some((4int, name)),
        forall|k: int| 0 <= k < name.len() ==> !is_separator(#[trigger] name[k], rules),
{
}

/// Parts that are written anew are read as the same parts.
proof fn lemma_rewritten(text: Seq<char>, list: Seq<Span>, head: Seq<char>)
    requires
        forall|i: int|
            0 <= i < list.len() ==> {
                let span = #[trigger] list[i];
                &&& 0 <= span.start < span.end <= text.len()
                &&& piece_key(text.subrange(span.start, span.end), PathRules::Verbatim) == Some(
                    span.key,
                )
                &&& forall|k: int|
                    span.start <= k < span.end ==> !is_separator(
                        #[trigger] text[k],
                        PathRules::Verbatim,
                    )
            },
    ensures
        span_keys(
            body_spans(
                (head + rewritten(text, list)).push('\\'),
                head.len() as int + 1,
                PathRules::Verbatim,
            ),
        ) == span_keys(list),
        (head + rewritten(text, list)).push('\\')[head.len() as int] == '\\',
        head.is_prefix_of(head + rewritten(text, list)),
    decreases list.len(),
{
    let rules = PathRules::Verbatim;
    let from = head.len() as int + 1;
    let after = (head + rewritten(text, list)).push('\\');
    assert(head =~= (head + rewritten(text, list)).take(head.len() as int));
    if list.len() == 0 {
        assert(body_spans(after, from, rules) =~= Seq::empty());
        assert(span_keys(body_spans(after, from, rules)) =~= span_keys(list));
    } else {
        let last = list.last();
        assert(list[list.len() - 1] == last);
        let piece = text.subrange(last.start, last.end);
        let before = (head + rewritten(text, list.drop_last())).push('\\');
        assert forall|i: int| 0 <= i < list.drop_last().len() implies #[trigger] list.drop_last()[i]
            == list[i] by {}
        lemma_rewritten(text, list.drop_last(), head);
        assert forall|k: int| 0 <= k < piece.len() implies !is_separator(
            #[trigger] piece[k],
            rules,
        ) by {
            assert(piece[k] == text[last.start + k]);
        }
        let none = Seq::<char>::empty();
        assert(head + rewritten(text, list) =~= before + none + piece);
        lemma_continued(before, none, piece, from, rules);
        lemma_closed(head + rewritten(text, list), from, rules);
        let read = body_spans(before, from, rules);
        assert(span_keys(read).len() == span_keys(list.drop_last()).len());
        assert forall|i: int| 0 <= i < read.len() implies #[trigger] read[i].key == list[i].key by {
            assert(list.drop_last()[i] == list[i]);
            assert(span_keys(read)[i] == span_keys(list.drop_last())[i]);
        }
        assert(span_keys(body_spans(after, from, rules)) =~= span_keys(list));
    }
}

/// A separator at the end changes nothing.
proof fn lemma_closed(before: Seq<char>, from: int, rules: PathRules)
    requires
        0 <= from <= before.len(),
        is_separator('\\', rules),
    ensures
        body_spans(before.push('\\'), from, rules) == body_spans(before, from, rules),
    decreases before.len() - from,
{
    let after = before.push('\\');
    let end = next_separator(before, from, rules);
    lemma_next_separator(before, from, rules);
    assert forall|k: int| from <= k < end implies !is_separator(#[trigger] after[k], rules) by {
        assert(after[k] == before[k]);
    }
    assert(is_separator(after[end], rules)) by {
        if end < before.len() {
            assert(after[end] == before[end]);
        }
    }
    lemma_next_separator_is(after, from, end, rules);
    assert(body_spans(after, after.len() as int, rules) =~= Seq::empty());
    if from == before.len() {
        assert(after.subrange(from, from) =~= Seq::empty());
        assert(body_spans(before, from, rules) =~= Seq::empty());
        assert(body_spans(after, from, rules) =~= Seq::empty());
    } else {
        assert(after.subrange(from, end) =~= before.subrange(from, end));
        if end < before.len() {
            lemma_closed(before, end + 1, rules);
        } else {
            assert(body_spans(before, end + 1, rules) =~= Seq::empty());
        }
    }
}

/// A path that is continued with a name has the parts of the path and the name.
pub proof fn lemma_joined(
    text: Seq<char>,
    prefix: Option<PathPrefix>,
    style: PathStyle,
    name: Seq<char>,
)
    requires
        prefix_fits(text, prefix, style),
        is_name(name),
    ensures
        prefix_fits(joined_text(text, prefix, style, name), prefix, style),
        span_keys(read_spans(joined_text(text, prefix, style, name), prefix, style))
            == joined_keys(
            span_keys(read_spans(text, prefix, style)),
            is_bare_verbatim(text, prefix),
            name,
        ),
{
    let after = joined_text(text, prefix, style, name);
    let rules = rules_of(style, prefix);
    let p = prefix_len(prefix);
    lemma_name(name, rules);
    let none = Seq::<char>::empty();
    let from = body_start(text, prefix, style);
    if is_verbatim(prefix) {
        let body = body_spans(text, from, rules);
        let head = text.take(p);
        lemma_body_spans(text, from, rules);
        lemma_rewritten(text, body, head);
        let before = (head + rewritten(text, body)).push('\\');
        assert(after =~= before + none + name);
        assert(before.last() == '\\');
        lemma_continued(before, none, name, p + 1, rules);
        assert(after[p] == before[p]);
        assert(after.take(p) =~= head);
        if p == text.len() {
            assert(body =~= Seq::empty());
        } else {
            assert(has_written_root(text, prefix, style));
        }
        let read = body_spans(before, p + 1, rules);
        assert(span_keys(read).len() == span_keys(body).len());
        assert forall|i: int| 0 <= i < read.len() implies #[trigger] read[i].key == body[i].key by {
            assert(span_keys(read)[i] == span_keys(body)[i]);
        }
        assert(has_written_root(after, prefix, style));
        assert(body_spans(after, p + 1, rules) == read.push(
            Span { key: (4, name), start: before.len() as int, end: after.len() as int },
        ));
        assert(prefix_spans(after, prefix) =~= prefix_spans(text, prefix));
        assert(span_keys(read_spans(after, prefix, style)) =~= joined_keys(
            span_keys(read_spans(text, prefix, style)),
            is_bare_verbatim(text, prefix),
            name,
        ));
    } else {
        let glue = if needs_no_separator(text, prefix, style) {
            none
        } else {
            seq![main_separator(style)]
        };
        assert(after =~= text + glue + name);
        assert(after.take(p) =~= text.take(p));
        lemma_next_separator(text, p, rules);
        if p < text.len() {
            assert(after[p] == text[p]);
            let end = next_separator(text, p, rules);
            assert forall|k: int| p <= k < end implies !is_separator(#[trigger] after[k], rules) by {
                assert(after[k] == text[k]);
            }
            if end < text.len() {
                assert(after[end] == text[end]);
            } else {
                assert(text[text.len() - 1] == text.last());
                assert(after[end] == glue[0]);
            }
            lemma_next_separator_is(after, p, end, rules);
            assert(after.subrange(p, end) =~= text.subrange(p, end));
            lemma_continued(text, glue, name, from, rules);
            assert(body_start(after, prefix, style) == from);
        } else if glue.len() == 0 {
            assert(after[p] == name[0]);
            assert(next_separator(after, p, rules) == after.len()) by {
                assert forall|k: int| p <= k < after.len() implies !is_separator(
                    #[trigger] after[k],
                    rules,
                ) by {
                    assert(after[k] == name[k - p]);
                }
                lemma_next_separator_is(after, p, after.len() as int, rules);
            }
            assert(after.subrange(p, after.len() as int) =~= name);
            lemma_continued(text, glue, name, from, rules);
        } else {
            assert(after[p] == glue[0]);
            assert(implies_root(prefix));
            let before = text + glue;
            assert(after =~= before + none + name);
            lemma_continued(before, none, name, p + 1, rules);
            assert(body_spans(before, p + 1, rules) =~= Seq::empty());
            assert(body_spans(text, from, rules) =~= Seq::empty());
        }
        assert(span_keys(read_spans(after, prefix, style)) =~= joined_keys(
            span_keys(read_spans(text, prefix, style)),
            is_bare_verbatim(text, prefix),
            name,
        ));
    }
}

/// Whether a prefix is taken as it is written.
fn verbatim(prefix: &Option<PathPrefix>) -> (verbatim: bool)
    ensures
        verbatim == is_verbatim(*prefix),
{
    match prefix {
        Some(p) => match p.kind {
            PrefixKind::Verbatim | PrefixKind::VerbatimUnc | PrefixKind::VerbatimDrive => true,
            _ => false,
        },
        None => false,
    }
}

/// Whether a character separates parts.
fn separates(c: char, rules: PathRules) -> (separates: bool)
    ensures
        separates == is_separator(c, rules),
{
    match rules {
        PathRules::Unix => c == '/',
        PathRules::Windows => c == '/' || c == '\\',
        PathRules::Verbatim => c == '\\',
    }
}

/// Whether a character at the beginning or the end of a text counts as a
/// separator.
fn slash(c: char, style: PathStyle) -> (slash: bool)
    ensures
        slash == is_slash(c, style),
{
    match style {
        PathStyle::Unix => c == '/',
        PathStyle::Windows => c == '/' || c == '\\',
    }
}

/// The rules for what stands behind a prefix.
fn rules_for(style: PathStyle, prefix: &Option<PathPrefix>) -> (rules: PathRules)
    ensures
        rules == rules_of(style, *prefix),
{
    match style {
        PathStyle::Unix => PathRules::Unix,
        PathStyle::Windows => if verbatim(prefix) {
            PathRules::Verbatim
        } else {
            PathRules::Windows
        },
    }
}

/// Whether a prefix can be that of a text.
pub fn can_begin(chars: &Vec<char>, prefix: &Option<PathPrefix>, style: PathStyle) -> (fits: bool)
    ensures
        fits == prefix_fits(chars@, *prefix, style),
{
    match prefix {
        None => true,
        Some(p) => {
            if style == PathStyle::Unix || p.len == 0 || p.len > chars.len() {
                return false;
            }
            match p.kind {
                PrefixKind::Drive => true,
                PrefixKind::Device | PrefixKind::Unc => !slash(chars[p.len - 1], style) && (p.len
                    == chars.len() || slash(chars[p.len], style)),
                _ => p.len == chars.len() || slash(chars[p.len], style),
            }
        },
    }
}

/// Where the next separator stands from `from` on, or the end of the text.
fn find_separator(chars: &Vec<char>, from: usize, rules: PathRules) -> (at: usize)
    requires
        from <= chars@.len(),
    ensures
        at == next_separator(chars@, from as int, rules),
        from <= at <= chars@.len(),
{
    let mut at: usize = from;
    while at < chars.len() && !separates(chars[at], rules)
        invariant
            from <= at <= chars@.len(),
            forall|k: int| from <= k < at ==> !is_separator(#[trigger] chars@[k], rules),
        decreases chars@.len() - at,
    {
        at = at + 1;
    }
    proof {
        lemma_next_separator_is(chars@, from as int, at as int, rules);
    }
    at
}

/// The part that a piece is.
fn read_piece(chars: &Vec<char>, start: usize, end: usize, rules: PathRules) -> (part: Option<
    PathPart,
>)
    requires
        start <= end <= chars@.len(),
    ensures
        match part {
            Some(p) => piece_key(chars@.subrange(start as int, end as int), rules) == Some(
                part_key(p),
            ),
            None => piece_key(chars@.subrange(start as int, end as int), rules) is None,
        },
{
    let ghost piece = chars@.subrange(start as int, end as int);
    let len: usize = end - start;
    if len == 0 {
        return None;
    }
    if len == 1 && chars[start] == '.' {
        assert(piece =~= seq!['.']);
        return if rules == PathRules::Verbatim {
            Some(PathPart::Current)
        } else {
            None
        };
    }
    assert(piece != seq!['.']) by {
        if piece == seq!['.'] {
            assert(piece[0] == chars@[start as int]);
        }
    }
    if len == 2 && chars[start] == '.' && chars[start + 1] == '.' {
        assert(piece =~= seq!['.', '.']);
        return Some(PathPart::Parent);
    }
    assert(piece != seq!['.', '.']) by {
        if piece == seq!['.', '.'] {
            assert(piece[0] == chars@[start as int]);
            assert(piece[1] == chars@[start + 1]);
        }
    }
    Some(PathPart::Normal(text::from_chars(chars, start, end)))
}

/// What tells a prefix from others.
fn read_prefix(chars: &Vec<char>, prefix: PathPrefix) -> (name: String)
    requires
        prefix.len <= chars@.len(),
    ensures
        name@ == prefix_name(chars@, prefix),
{
    let mut name = String::new();
    name.push(
        match prefix.kind {
            PrefixKind::Verbatim => '0',
            PrefixKind::VerbatimUnc => '1',
            PrefixKind::VerbatimDrive => '2',
            PrefixKind::Device => '3',
            PrefixKind::Unc => '4',
            PrefixKind::Drive => '5',
        },
    );
    let drive = prefix.kind == PrefixKind::Drive || prefix.kind == PrefixKind::VerbatimDrive;
    let mut i: usize = 0;
    assert(name@ =~= prefix_name(chars@, PathPrefix { kind: prefix.kind, len: 0 }));
    while i < prefix.len
        invariant
            i <= prefix.len <= chars@.len(),
            drive == (prefix.kind == PrefixKind::Drive || prefix.kind
                == PrefixKind::VerbatimDrive),
            name@ == prefix_name(chars@, PathPrefix { kind: prefix.kind, len: i }),
        decreases prefix.len - i,
    {
        let c = chars[i];
        let ghost before = name@;
        if c == '\\' || c == '/' && prefix.kind != PrefixKind::Verbatim {
            name.push('\0');
        } else if drive && 'a' <= c && c <= 'z' {
            name.push((c as u8 - 32) as char);
        } else {
            name.push(c);
        }
        i = i + 1;
        assert(name@ =~= prefix_name(chars@, PathPrefix { kind: prefix.kind, len: i })) by {
            assert(name@ == before.push(prefix_char(c, prefix.kind)));
        }
    }
    name
}

/// The parts of a path.
pub fn read_parts(chars: &Vec<char>, prefix: &Option<PathPrefix>, style: PathStyle) -> (parts: Vec<
    PlacedPart,
>)
    requires
        prefix_fits(chars@, *prefix, style),
    ensures
        spans(parts@) == read_spans(chars@, *prefix, style),
{
    let rules = rules_for(style, prefix);
    let mut parts: Vec<PlacedPart> = Vec::new();
    let mut from: usize = 0;
    let mut implied = false;
    assert(spans(parts@) =~= Seq::empty());
    if let Some(p) = prefix {
        from = p.len;
        implied = p.kind != PrefixKind::Drive;
        parts.push(
            PlacedPart { part: PathPart::Prefix(read_prefix(chars, *p)), start: 0, end: p.len },
        );
    }
    assert(spans(parts@) =~= prefix_spans(chars@, *prefix));
    assert(from == prefix_len(*prefix) && implied == implies_root(*prefix));
    let ghost start = from as int;
    let ghost front = spans(parts@);
    if from < chars.len() && slash(chars[from], style) {
        parts.push(PlacedPart { part: PathPart::Root, start: from, end: from + 1 });
        from = from + 1;
    } else if implied {
        if !verbatim(prefix) {
            parts.push(PlacedPart { part: PathPart::Root, start: from, end: from });
        }
    } else if from < chars.len() && chars[from] == '.' {
        let end = find_separator(chars, from, rules);
        let ghost first = chars@.subrange(from as int, end as int);
        if end == from + 1 {
            parts.push(PlacedPart { part: PathPart::Current, start: from, end });
            assert(first =~= seq!['.']);
        } else {
            assert(first.len() != 1);
        }
    } else {
        proof {
            if from < chars@.len() {
                let end = next_separator(chars@, start, rules);
                lemma_next_separator(chars@, start, rules);
                if chars@.subrange(start, end) == seq!['.'] {
                    assert(chars@.subrange(start, end)[0] == chars@[start]);
                }
            }
        }
    }
    assert(spans(parts@) =~= front + root_spans(chars@, *prefix, style));
    assert(from == body_start(chars@, *prefix, style));
    let ghost head = spans(parts@);
    let ghost body = body_spans(chars@, from as int, rules);
    assert(head + body =~= spans(parts@) + body);
    while from < chars.len()
        invariant
            from <= chars@.len() + 1,
            chars@.len() <= usize::MAX,
            head + body == spans(parts@) + body_spans(chars@, from as int, rules),
        decreases chars@.len() + 1 - from,
    {
        let end = find_separator(chars, from, rules);
        let ghost before = spans(parts@);
        if let Some(part) = read_piece(chars, from, end, rules) {
            parts.push(PlacedPart { part, start: from, end });
            assert(spans(parts@) =~= before.push(
                Span { key: part_key(part), start: from as int, end: end as int },
            ));
        }
        assert(spans(parts@) + body_spans(chars@, end + 1, rules) =~= before + body_spans(
            chars@,
            from as int,
            rules,
        ));
        if end >= chars.len() {
            assert(body_spans(chars@, end + 1, rules) =~= Seq::empty());
            assert(body_spans(chars@, end as int, rules) =~= Seq::empty());
            from = end;
        } else {
            from = end + 1;
        }
    }
    assert(spans(parts@) =~= read_spans(chars@, *prefix, style));
    parts
}

/// How a path is written that continues another one with a name.
pub fn join_text(chars: &Vec<char>, prefix: &Option<PathPrefix>, style: PathStyle, name: &str) -> (
    joined: String)
    requires
        prefix_fits(chars@, *prefix, style),
    ensures
        joined@ == joined_text(chars@, *prefix, style, name@),
{
    let mut joined: String;
    if verbatim(prefix) {
        joined = write_anew(chars, prefix, style);
        joined.push('\\');
    } else {
        joined = text::from_chars(chars, 0, chars.len());
        assert(joined@ =~= chars@);
        let drive = match prefix {
            Some(p) => p.kind == PrefixKind::Drive && p.len == chars.len(),
            None => false,
        };
        if chars.len() > 0 && !slash(chars[chars.len() - 1], style) && !drive {
            joined.push(
                match style {
                    PathStyle::Unix => '/',
                    PathStyle::Windows => '\\',
                },
            );
        }
    }
    joined.append(name);
    joined
}

/// A verbatim prefix, and the parts behind it written anew.
fn write_anew(chars: &Vec<char>, prefix: &Option<PathPrefix>, style: PathStyle) -> (written: String)
    requires
        prefix_fits(chars@, *prefix, style),
        is_verbatim(*prefix),
    ensures
        written@ == chars@.take(prefix_len(*prefix)) + rewritten(
            chars@,
            body_spans(chars@, body_start(chars@, *prefix, style), PathRules::Verbatim),
        ),
{
    let rules = PathRules::Verbatim;
    let len: usize = match prefix {
        Some(p) => p.len,
        None => 0,
    };
    let mut written = text::from_chars(chars, 0, len);
    let ghost head = written@;
    assert(head =~= chars@.take(len as int));
    let mut from: usize = if len < chars.len() && slash(chars[len], style) {
        len + 1
    } else {
        len
    };
    let ghost body = body_spans(chars@, from as int, rules);
    let ghost done: Seq<Span> = Seq::empty();
    assert(written@ =~= head + rewritten(chars@, done));
    assert(body =~= done + body);
    while from < chars.len()
        invariant
            rules == PathRules::Verbatim,
            from <= chars@.len() + 1,
            chars@.len() <= usize::MAX,
            body == done + body_spans(chars@, from as int, rules),
            written@ == head + rewritten(chars@, done),
        decreases chars@.len() + 1 - from,
    {
        let end = find_separator(chars, from, rules);
        let ghost before = done;
        if let Some(part) = read_piece(chars, from, end, rules) {
            let piece = text::from_chars(chars, from, end);
            let ghost text_before = written@;
            written.push('\\');
            written.append(piece.as_str());
            proof {
                done = before.push(
                    Span { key: part_key(part), start: from as int, end: end as int },
                );
                assert(done.drop_last() =~= before);
                assert(written@ =~= head + rewritten(chars@, done));
            }
        }
        assert(done + body_spans(chars@, end + 1, rules) =~= before + body_spans(
            chars@,
            from as int,
            rules,
        ));
        if end >= chars.len() {
            assert(body_spans(chars@, end + 1, rules) =~= Seq::empty());
            assert(body_spans(chars@, end as int, rules) =~= Seq::empty());
            from = end;
        } else {
            from = end + 1;
        }
    }
    assert(body =~= done);
    written
}

/// A slash separates parts but behind a verbatim prefix, and a backslash does on
/// Windows; nothing else does. What is written between two parts separates them.
pub proof fn law_separators(c: char, style: PathStyle, prefix: Option<PathPrefix>)
    ensures
        is_separator('/', PathRules::Unix) && !is_separator('\\', PathRules::Unix),
        is_separator('/', PathRules::Windows) && is_separator('\\', PathRules::Windows),
        !is_separator('/', PathRules::Verbatim) && is_separator('\\', PathRules::Verbatim),
        c != '/' && c != '\\' ==> !is_separator(c, rules_of(style, prefix)) && !is_slash(c, style),
        is_separator(main_separator(style), rules_of(style, prefix)),
        is_slash(main_separator(style), style),
        style is Unix ==> rules_of(style, prefix) is Unix,
        style is Windows ==> (rules_of(style, prefix) is Verbatim <==> is_verbatim(prefix)),
        prefix is None ==> !is_verbatim(prefix) && !implies_root(prefix) && prefix_len(prefix) == 0,
        prefix matches Some(p) ==> {
            &&& is_verbatim(prefix) <==> !(p.kind is Device || p.kind is Unc || p.kind is Drive)
            &&& implies_root(prefix) <==> !(p.kind is Drive)
            &&& prefix_len(prefix) == p.len
        },
{
}

/// The parts of a text are what stands between its separators, from the first to
/// the last. Empty pieces are passed over, and so is a dot but behind a verbatim
/// prefix; two dots are the parent, and anything else is a name.
pub proof fn law_parts_stand_between_separators(
    piece: Seq<char>,
    separator: char,
    rest: Seq<char>,
    rules: PathRules,
)
    requires
        is_separator(separator, rules),
        forall|k: int| 0 <= k < piece.len() ==> !is_separator(#[trigger] piece[k], rules),
    ensures
        ({
            let own: Seq<PartKey> = if piece.len() == 0 || piece == seq!['.'] && !(rules
                is Verbatim) {
                Seq::empty()
            } else if piece == seq!['.'] {
                seq![(2, Seq::empty())]
            } else if piece == seq!['.', '.'] {
                seq![(3, Seq::empty())]
            } else {
                seq![(4, piece)]
            };
            &&& span_keys(body_spans(piece, 0, rules)) == own
            &&& span_keys(body_spans(piece.push(separator) + rest, 0, rules)) == own + span_keys(
                body_spans(rest, 0, rules),
            )
        }),
{
    let whole = piece.push(separator) + rest;
    let n = piece.len() as int;
    assert(seq!['.'] != seq!['.', '.']) by {
        assert(seq!['.'].len() == 1 && seq!['.', '.'].len() == 2);
    }
    lemma_next_separator_is(piece, 0, n, rules);
    assert(piece.subrange(0, n) =~= piece);
    assert(body_spans(piece, n + 1, rules) =~= Seq::empty());
    let alone = match piece_key(piece, rules) {
        Some(key) => seq![Span { key, start: 0, end: n }],
        None => Seq::empty(),
    };
    if n > 0 {
        assert(body_spans(piece, 0, rules) =~= alone);
    }
    assert forall|k: int| 0 <= k < n implies !is_separator(#[trigger] whole[k], rules) by {
        assert(whole[k] == piece[k]);
    }
    assert(whole[n] == separator);
    lemma_next_separator_is(whole, 0, n, rules);
    assert(whole.subrange(0, n) =~= piece);
    lemma_shifted(whole, n + 1, n + 1, rules);
    assert(whole.skip(n + 1) =~= rest);
    let later = body_spans(whole, n + 1, rules);
    assert(body_spans(rest, 0, rules) == shifted(later, n + 1));
    assert(span_keys(shifted(later, n + 1)) =~= span_keys(later));
    assert(body_spans(whole, 0, rules) =~= alone + later);
    assert(span_keys(alone + later) =~= span_keys(alone) + span_keys(later));
}

/// A path without a prefix has a root exactly if it begins with a slash, and then
/// the root is its first part.
pub proof fn law_a_path_has_the_root_that_is_written(text: Seq<char>, style: PathStyle)
    ensures
        ({
            let parts = root_spans(text, None, style);
            let rooted = text.len() > 0 && (text[0] == '/' || style is Windows && text[0] == '\\');
            &&& rooted ==> parts.len() == 1 && parts[0].key.0 == 1 && body_start(text, None, style)
                == 1
            &&& !rooted ==> body_start(text, None, style) == 0
            &&& !rooted ==> forall|i: int|
                0 <= i < parts.len() ==> (#[trigger] parts[i]).key.0 == 2
            &&& prefix_spans(text, None).len() == 0
        }),
{
}

/// Prefixes are told apart by their kind and their characters, of which all
/// separators are alike and drive letters count in either case.
pub proof fn law_prefixes_are_compared(c: char, kind: PrefixKind, other: PrefixKind)
    ensures
        prefix_char('\\', kind) == '\0',
        prefix_char('/', kind) == '\0' <==> !(kind is Verbatim),
        kind_char(kind) == kind_char(other) ==> kind == other,
        (kind is Drive || kind is VerbatimDrive) && 'a' <= c <= 'z' ==> prefix_char(c, kind) as u32
            + 32 == c as u32,
        !(kind is Drive) && !(kind is VerbatimDrive) && c != '/' && c != '\\' ==> prefix_char(
            c,
            kind,
        ) == c,
        'A' <= c <= 'Z' ==> prefix_char(c, kind) == c,
{
}

/// A path that is continued with a name, but behind a verbatim prefix, begins
/// with what was written and ends with the name, and between the two stands
/// nothing or the separator.
pub proof fn law_a_path_is_continued_behind_its_text(
    text: Seq<char>,
    prefix: Option<PathPrefix>,
    style: PathStyle,
    name: Seq<char>,
)
    requires
        !is_verbatim(prefix),
    ensures
        ({
            let joined = joined_text(text, prefix, style, name);
            let between = joined.len() - text.len() - name.len();
            &&& text.is_prefix_of(joined)
            &&& joined.skip(joined.len() - name.len()) == name
            &&& between == 0 || between == 1
            &&& between == 1 ==> joined[text.len() as int] == main_separator(style)
            &&& text.len() > 0 && prefix is None ==> (between == 0 <==> is_slash(
                text.last(),
                style,
            ))
            &&& text.len() == 0 ==> joined == name
        }),
{
    let joined = joined_text(text, prefix, style, name);
    assert(text =~= joined.take(text.len() as int));
    assert(joined.skip(joined.len() - name.len()) =~= name);
    if text.len() == 0 {
        assert(joined =~= name);
    }
}

/// A name has characters, none of which separates parts or ends a drive, and is
/// not one of the two that stand for directories.
pub proof fn law_names_are_single_parts(name: Seq<char>, separator: char, rules: PathRules)
    requires
        is_name(name),
        is_separator(separator, rules),
    ensures
        span_keys(body_spans(name, 0, rules)) == seq![(4int, name)],
        !name.contains(separator),
{
    lemma_name(name, rules);
    law_parts_stand_between_separators(name, separator, Seq::empty(), rules);
}

/// Parts of different kinds have different keys, in the order in which parts are
/// sorted: a prefix, the root, the directory itself, the one above, and names. Two
/// prefixes, and two names, have the same key exactly if they are the same text.
pub proof fn law_parts_are_ordered_by_their_kind(a: String, b: String)
    ensures
        part_key(PathPart::Prefix(a)).0 < part_key(PathPart::Root).0 < part_key(
            PathPart::Current,
        ).0 < part_key(PathPart::Parent).0 < part_key(PathPart::Normal(b)).0,
        part_key(PathPart::Prefix(a)) == part_key(PathPart::Prefix(b)) <==> a@ == b@,
        part_key(PathPart::Normal(a)) == part_key(PathPart::Normal(b)) <==> a@ == b@,
        part_key(PathPart::Prefix(a)).1 == a@,
        part_key(PathPart::Normal(a)).1 == a@,
        part_key(PathPart::Root).1.len() == 0,
        part_key(PathPart::Current).1.len() == 0,
        part_key(PathPart::Parent).1.len() == 0,
{
}

} // verus!
