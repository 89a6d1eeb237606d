//! Paths of the cache, and the list of files whose deletion is still due.
use crate::ids::FileId;
use crate::order;
use crate::path_reading;
use crate::path_reading::{PartKey, PathPart, PathPrefix, PathStyle, PlacedPart};
use crate::text;
use vstd::prelude::*;

verus! {

/// A path: how it is written, and the parts that its text is read as.
#[derive(Debug)]
pub struct CachePath {
    pub text: String,
    pub prefix: Option<PathPrefix>,
    pub style: PathStyle,
    pub parts: Vec<PlacedPart>,
}

/// The order of parts: by kind, and by name within a kind.
pub open spec fn part_order() -> spec_fn(PartKey, PartKey) -> bool {
    |x: PartKey, y: PartKey| x.0 < y.0 || x.0 == y.0 && order::text_less(x.1, y.1)
}

/// The keys of parts.
pub open spec fn part_keys(parts: Seq<PlacedPart>) -> Seq<PartKey> {
    path_reading::span_keys(path_reading::spans(parts))
}

/// Whether one path comes before another.
pub open spec fn path_less(a: Seq<PartKey>, b: Seq<PartKey>) -> bool {
    order::less(a, b, part_order())
}

/// Parts are in one order.
proof fn lemma_part_order()
    ensures
        order::strict_order(part_order()),
{
    order::lemma_text_order();
    let lt = part_order();
    let texts = order::text_order();
    assert forall|x: PartKey| !#[trigger] lt(x, x) by {
        assert(!texts(x.1, x.1));
    }
    assert forall|x: PartKey, y: PartKey, z: PartKey| #[trigger]
        lt(x, y) && #[trigger] lt(y, z) implies lt(x, z) by {
        if x.0 == y.0 && y.0 == z.0 {
            assert(texts(x.1, y.1) && texts(y.1, z.1));
            assert(texts(x.1, z.1));
        }
    }
    assert forall|x: PartKey, y: PartKey| x == y || #[trigger] lt(x, y) || lt(y, x) by {
        if x.0 == y.0 {
            assert(x.1 == y.1 || texts(x.1, y.1) || texts(y.1, x.1));
        }
    }
}

/// The rank of the kind of a part.
fn rank(part: &PathPart) -> (rank: u8)
    ensures
        rank == path_reading::part_key(*part).0,
{
    match part {
        PathPart::Prefix(_) => 0,
        PathPart::Root => 1,
        PathPart::Current => 2,
        PathPart::Parent => 3,
        PathPart::Normal(_) => 4,
    }
}

/// The name of a part.
fn name_of(part: &PathPart) -> (name: &str)
    ensures
        name@ == path_reading::part_key(*part).1,
{
    proof {
        reveal_strlit("");
        assert(""@ =~= Seq::empty());
    }
    match part {
        PathPart::Prefix(name) => name.as_str(),
        PathPart::Normal(name) => name.as_str(),
        _ => "",
    }
}

/// Whether two parts are the same.
fn same_part(a: &PathPart, b: &PathPart) -> (same: bool)
    ensures
        same == (path_reading::part_key(*a) == path_reading::part_key(*b)),
{
    rank(a) == rank(b) && text::same_text(name_of(a), name_of(b))
}

/// A copy of a part.
fn copy_part(part: &PathPart) -> (copy: PathPart)
    ensures
        path_reading::part_key(copy) == path_reading::part_key(*part),
{
    match part {
        PathPart::Prefix(name) => PathPart::Prefix(name.clone()),
        PathPart::Root => PathPart::Root,
        PathPart::Current => PathPart::Current,
        PathPart::Parent => PathPart::Parent,
        PathPart::Normal(name) => PathPart::Normal(name.clone()),
    }
}

impl CachePath {
    /// The keys of the parts. Two paths are the same if their keys are.
    pub open spec fn keys(self) -> Seq<PartKey> {
        part_keys(self.parts@)
    }

    /// Whether the parts are those that the text is read as.
    pub open spec fn wf(self) -> bool {
        &&& path_reading::prefix_fits(self.text@, self.prefix, self.style)
        &&& self.spans() == path_reading::read_spans(self.text@, self.prefix, self.style)
    }

    /// The parts and where they stand in the text.
    pub open spec fn spans(self) -> Seq<path_reading::Span> {
        path_reading::spans(self.parts@)
    }

    /// How a path is written that continues this one with a name.
    pub open spec fn joined_text(self, name: Seq<char>) -> Seq<char> {
        path_reading::joined_text(self.text@, self.prefix, self.style, name)
    }

    /// The keys of the path that continues this one with a name.
    pub open spec fn joined_keys(self, name: Seq<char>) -> Seq<PartKey> {
        path_reading::joined_keys(
            self.keys(),
            path_reading::is_bare_verbatim(self.text@, self.prefix),
            name,
        )
    }

    /// How the part of this path from part number `n` on is written.
    pub open spec fn text_from(self, n: int) -> Seq<char> {
        path_reading::text_from(self.text@, self.spans(), n)
    }

    /// The text by which this path is known in a set of paths.
    pub open spec fn key(self) -> Seq<char> {
        key_of(self.keys(), path_reading::main_separator(self.style))
    }

    /// The path that a text is. A prefix that the text cannot begin with is not
    /// taken as one.
    pub fn read(text: String, prefix: Option<PathPrefix>, style: PathStyle) -> (path: CachePath)
        ensures
            path.wf(),
            path.text == text,
            path.style == style,
            path.prefix == if path_reading::prefix_fits(text@, prefix, style) {
                prefix
            } else {
                None
            },
    {
        let chars = text::to_chars(text.as_str());
        let taken = if path_reading::can_begin(&chars, &prefix, style) {
            prefix
        } else {
            None
        };
        let parts = path_reading::read_parts(&chars, &taken, style);
        CachePath { text, prefix: taken, style, parts }
    }

    /// Whether this path lies in `root`, or is `root`.
    pub open spec fn lies_in(self, root: CachePath) -> bool {
        root.keys().is_prefix_of(self.keys())
    }

    /// Whether two paths are the same.
    pub fn same(&self, other: &CachePath) -> (same: bool)
        ensures
            same == (self.keys() == other.keys()),
    {
        proof {
            if self.keys() == other.keys() {
                assert(other.keys() =~= self.keys().subrange(0, other.keys().len() as int));
            }
            assert(self.keys().len() == self.parts@.len());
            assert(other.keys().len() == other.parts@.len());
        }
        self.parts.len() == other.parts.len() && self.starts_with(other)
    }

    /// Whether this path lies in `root`, or is `root`.
    pub fn starts_with(&self, root: &CachePath) -> (inside: bool)
        ensures
            inside == self.lies_in(*root),
            inside && self.keys().len() == root.keys().len() ==> self.keys() == root.keys(),
    {
        if root.parts.len() > self.parts.len() {
            return false;
        }
        let mut i: usize = 0;
        while i < root.parts.len()
            invariant
                i <= root.parts@.len() <= self.parts@.len(),
                forall|k: int| 0 <= k < i ==> #[trigger] self.keys()[k] == root.keys()[k],
            decreases root.parts@.len() - i,
        {
            if !same_part(&self.parts[i].part, &root.parts[i].part) {
                assert(self.keys()[i as int] != root.keys()[i as int]);
                return false;
            }
            assert(self.keys()[i as int] == root.keys()[i as int]);
            i = i + 1;
        }
        assert(root.keys() =~= self.keys().take(root.keys().len() as int));
        proof {
            if self.keys().len() == root.keys().len() {
                assert(self.keys() =~= root.keys());
            }
        }
        true
    }

    /// Whether this path comes before another.
    pub fn before(&self, other: &CachePath) -> (before: bool)
        ensures
            before == path_less(self.keys(), other.keys()),
    {
        let mut i: usize = 0;
        assert(self.keys().skip(0) =~= self.keys());
        assert(other.keys().skip(0) =~= other.keys());
        while i < self.parts.len() && i < other.parts.len() && same_part(
            &self.parts[i].part,
            &other.parts[i].part,
        )
            invariant
                i <= self.parts@.len(),
                i <= other.parts@.len(),
                path_less(self.keys(), other.keys()) == path_less(
                    self.keys().skip(i as int),
                    other.keys().skip(i as int),
                ),
            decreases self.parts@.len() - i,
        {
            assert(self.keys().skip(i as int).skip(1) =~= self.keys().skip(i + 1));
            assert(other.keys().skip(i as int).skip(1) =~= other.keys().skip(i + 1));
            i = i + 1;
        }
        if i >= other.parts.len() {
            false
        } else if i >= self.parts.len() {
            true
        } else {
            let mine = rank(&self.parts[i].part);
            let theirs = rank(&other.parts[i].part);
            mine < theirs || (mine == theirs && order::text_before(
                name_of(&self.parts[i].part),
                name_of(&other.parts[i].part),
            ))
        }
    }

    /// A copy of this path.
    pub fn copy(&self) -> (copy: CachePath)
        ensures
            copy.text@ == self.text@,
            copy.prefix == self.prefix,
            copy.style == self.style,
            copy.spans() == self.spans(),
            copy.keys() == self.keys(),
    {
        let mut parts: Vec<PlacedPart> = Vec::new();
        let mut i: usize = 0;
        while i < self.parts.len()
            invariant
                i <= self.parts@.len(),
                path_reading::spans(parts@) == self.spans().take(i as int),
            decreases self.parts@.len() - i,
        {
            let ghost before = path_reading::spans(parts@);
            let placed = &self.parts[i];
            let part = copy_part(&placed.part);
            parts.push(PlacedPart { part, start: placed.start, end: placed.end });
            assert(path_reading::spans(parts@) =~= before.push(self.spans()[i as int]));
            assert(self.spans().take(i + 1) =~= self.spans().take(i as int).push(
                self.spans()[i as int],
            ));
            i = i + 1;
        }
        assert(self.spans().take(i as int) =~= self.spans());
        CachePath { text: self.text.clone(), prefix: self.prefix, style: self.style, parts }
    }

    /// The path that continues this one with a name.
    pub(crate) fn join(&self, name: &str) -> (path: CachePath)
        requires
            self.wf(),
            path_reading::is_name(name@),
        ensures
            path.wf(),
            path.text@ == self.joined_text(name@),
            path.prefix == self.prefix,
            path.style == self.style,
            path.keys() == self.joined_keys(name@),
    {
        let chars = text::to_chars(self.text.as_str());
        let joined = path_reading::join_text(&chars, &self.prefix, self.style, name);
        proof {
            path_reading::lemma_joined(self.text@, self.prefix, self.style, name@);
        }
        CachePath::read(joined, self.prefix, self.style)
    }

    /// The path of this one inside `root`; nothing if it does not lie in it. It
    /// is written as it is in this one.
    pub fn strip_prefix(&self, root: &CachePath) -> (relative: Option<CachePath>)
        requires
            self.wf(),
        ensures
            relative is Some <==> self.lies_in(*root),
            relative matches Some(path) ==> {
                let count = root.keys().len() as int;
                &&& path.keys() == self.keys().skip(count)
                &&& path.text@ == self.text_from(count)
                &&& path.style == self.style
                &&& path.prefix == if count == 0 {
                    self.prefix
                } else {
                    None
                }
                &&& self.is_behind_head(count) ==> path.wf()
            },
    {
        if !self.starts_with(root) {
            return None;
        }
        let count: usize = root.parts.len();
        let prefix = if count == 0 {
            self.prefix
        } else {
            None
        };
        let mut parts: Vec<PlacedPart> = Vec::new();
        proof {
            path_reading::lemma_read_order(self.text@, self.prefix, self.style);
            if self.is_behind_head(count as int) {
                path_reading::lemma_text_from(self.text@, self.prefix, self.style, count as int);
            }
        }
        if count >= self.parts.len() {
            assert(part_keys(parts@) =~= self.keys().skip(count as int));
            let relative = CachePath { text: String::new(), prefix, style: self.style, parts };
            assert(relative.text@ =~= Seq::empty());
            assert(relative.spans() =~= path_reading::parts_from(self.spans(), count as int));
            return Some(relative);
        }
        let ghost list = self.spans();
        let start: usize = self.parts[count].start;
        let end: usize = self.parts[self.parts.len() - 1].end;
        assert(list[count as int].start == start);
        assert(list[list.len() - 1].end == end);
        let chars = text::to_chars(self.text.as_str());
        let text = text::from_chars(&chars, start, end);
        let ghost wanted = path_reading::parts_from(list, count as int);
        let mut i: usize = count;
        while i < self.parts.len()
            invariant
                count <= i <= self.parts@.len(),
                list == self.spans(),
                forall|k: int|
                    count <= k < list.len() ==> start <= (#[trigger] list[k]).start
                        <= list[k].end,
                wanted.len() == list.len() - count,
                wanted == path_reading::shifted(list.skip(count as int), start as int),
                path_reading::spans(parts@) == wanted.take(i - count),
            decreases self.parts@.len() - i,
        {
            let ghost before = path_reading::spans(parts@);
            let placed = &self.parts[i];
            assert(list[i as int].start == placed.start && list[i as int].end == placed.end);
            let part = copy_part(&placed.part);
            parts.push(
                PlacedPart { part, start: placed.start - start, end: placed.end - start },
            );
            assert(path_reading::spans(parts@) =~= before.push(wanted[i - count]));
            assert(wanted.take(i + 1 - count) =~= wanted.take(i - count).push(wanted[i - count]));
            i = i + 1;
        }
        assert(wanted.take(i - count) =~= wanted);
        assert(part_keys(parts@) =~= self.keys().skip(count as int));
        Some(CachePath { text, prefix, style: self.style, parts })
    }

    /// Whether part number `n` stands behind the prefix and the root, in a path
    /// that is not verbatim.
    pub open spec fn is_behind_head(self, n: int) -> bool {
        &&& !path_reading::is_verbatim(self.prefix)
        &&& path_reading::head_len(self.text@, self.prefix, self.style) <= n
        &&& n == 0 ==> self.prefix is None
    }

    /// The text by which this path is known in a set of paths.
    pub fn key_string(&self) -> (key: String)
        ensures
            key@ == self.key(),
    {
        let separator = match self.style {
            PathStyle::Unix => '/',
            PathStyle::Windows => '\\',
        };
        let mut key = String::new();
        let ghost keys = self.keys();
        let mut i: usize = 0;
        assert(key@ =~= key_of(keys.take(0), separator));
        while i < self.parts.len()
            invariant
                i <= self.parts@.len(),
                keys == self.keys(),
                key@ == key_of(keys.take(i as int), separator),
            decreases self.parts@.len() - i,
        {
            let ghost before = key@;
            let part = &self.parts[i].part;
            assert(keys.take(i + 1).drop_last() =~= keys.take(i as int));
            assert(keys.take(i + 1).last() == path_reading::part_key(*part));
            key.push(
                match rank(part) {
                    0 => '0',
                    1 => '1',
                    2 => '2',
                    3 => '3',
                    _ => '4',
                },
            );
            key.append(name_of(part));
            key.push(separator);
            assert(key@ =~= before + piece_of(path_reading::part_key(*part)).push(separator));
            i = i + 1;
        }
        assert(keys.take(i as int) =~= keys);
        key
    }
}

/// A part as it stands in the text by which a path is known.
pub open spec fn piece_of(key: PartKey) -> Seq<char> {
    seq![(48 + key.0) as u32 as char] + key.1
}

/// The parts of a path one after the other, each with the rank of its kind.
pub open spec fn key_of(keys: Seq<PartKey>, separator: char) -> Seq<char>
    decreases keys.len(),
{
    if keys.len() == 0 {
        Seq::empty()
    } else {
        key_of(keys.drop_last(), separator) + piece_of(keys.last()).push(separator)
    }
}

/// Different parts give different texts.
proof fn lemma_key_of(a: Seq<PartKey>, b: Seq<PartKey>, style: PathStyle)
    requires
        forall|i: int|
            0 <= i < a.len() ==> 0 <= (#[trigger] a[i]).0 <= 4 && path_reading::is_plain(
                a[i].1,
                style,
            ),
        forall|i: int|
            0 <= i < b.len() ==> 0 <= (#[trigger] b[i]).0 <= 4 && path_reading::is_plain(
                b[i].1,
                style,
            ),
        key_of(a, path_reading::main_separator(style)) == key_of(
            b,
            path_reading::main_separator(style),
        ),
    ensures
        a == b,
    decreases a.len(),
{
    let separator = path_reading::main_separator(style);
    if a.len() == 0 || b.len() == 0 {
        assert(a =~= b);
    } else {
        let (x, y) = (a[a.len() - 1], b[b.len() - 1]);
        let (p, q) = (piece_of(x), piece_of(y));
        let (s, t) = (key_of(a.drop_last(), separator), key_of(b.drop_last(), separator));
        let whole = key_of(a, separator);
        assert(whole == s + p.push(separator));
        assert(whole == t + q.push(separator));
        lemma_key_ends(a.drop_last(), separator);
        lemma_key_ends(b.drop_last(), separator);
        assert(p.len() == q.len()) by {
            if p.len() < q.len() {
                assert(s.len() > 0);
                let at = s.len() - 1;
                assert(whole[at] == separator);
                assert(whole[at] == q[at - t.len()]);
                lemma_piece_plain(y, style);
            } else if q.len() < p.len() {
                assert(t.len() > 0);
                let at = t.len() - 1;
                assert(whole[at] == separator);
                assert(whole[at] == p[at - s.len()]);
                lemma_piece_plain(x, style);
            }
        }
        assert(s.len() == t.len());
        assert(s =~= whole.take(s.len() as int));
        assert(t =~= whole.take(s.len() as int));
        assert(p =~= whole.subrange(s.len() as int, (s.len() + p.len()) as int));
        assert(q =~= whole.subrange(s.len() as int, (s.len() + p.len()) as int));
        assert(p[0] == q[0]);
        assert(x.1 =~= p.skip(1));
        assert(y.1 =~= q.skip(1));
        assert(x == y);
        assert forall|i: int| 0 <= i < a.drop_last().len() implies #[trigger] a.drop_last()[i]
            == a[i] by {}
        assert forall|i: int| 0 <= i < b.drop_last().len() implies #[trigger] b.drop_last()[i]
            == b[i] by {}
        lemma_key_of(a.drop_last(), b.drop_last(), style);
        assert(a =~= a.drop_last().push(x));
        assert(b =~= b.drop_last().push(y));
    }
}

/// A text that is not empty ends with a separator.
proof fn lemma_key_ends(keys: Seq<PartKey>, separator: char)
    ensures
        key_of(keys, separator).len() > 0 ==> key_of(keys, separator).last() == separator,
{
}

/// A part holds no separator.
proof fn lemma_piece_plain(key: PartKey, style: PathStyle)
    requires
        0 <= key.0 <= 4,
        path_reading::is_plain(key.1, style),
    ensures
        path_reading::is_plain(piece_of(key), style),
{
    let piece = piece_of(key);
    assert forall|k: int| 0 <= k < piece.len() implies #[trigger] piece[k]
        != path_reading::main_separator(style) by {
        if k > 0 {
            assert(piece[k] == key.1[k - 1]);
        }
    }
}

/// Paths are known by the same text if and only if they are the same path,
/// however they are written.
pub proof fn law_a_path_is_known_by_its_parts(a: CachePath, b: CachePath)
    requires
        a.wf(),
        b.wf(),
        a.style == b.style,
    ensures
        a.key() == b.key() <==> a.keys() == b.keys(),
{
    path_reading::lemma_plain_parts(a.text@, a.prefix, a.style);
    path_reading::lemma_plain_parts(b.text@, b.prefix, b.style);
    if a.key() == b.key() {
        assert forall|i: int| 0 <= i < a.keys().len() implies 0 <= (#[trigger] a.keys()[i]).0 <= 4
            && path_reading::is_plain(a.keys()[i].1, a.style) by {
            assert(a.keys()[i] == a.spans()[i].key);
        }
        assert forall|i: int| 0 <= i < b.keys().len() implies 0 <= (#[trigger] b.keys()[i]).0 <= 4
            && path_reading::is_plain(b.keys()[i].1, a.style) by {
            assert(b.keys()[i] == b.spans()[i].key);
        }
        lemma_key_of(a.keys(), b.keys(), a.style);
    }
}

/// The name that a path ends with.
pub open spec fn name_at_end(keys: Seq<PartKey>) -> Option<Seq<char>> {
    if keys.len() > 0 && keys.last().0 == 4 {
        Some(keys.last().1)
    } else {
        None
    }
}

/// The byte that two hexadecimal digits stand for, or a plus sign and one digit.
pub open spec fn pair_value(first: char, second: char) -> Option<u8> {
    match crate::encoding::hex_value(second) {
        None => None,
        Some(low) => if first == '+' {
            Some(low as u8)
        } else {
            match crate::encoding::hex_value(first) {
                None => None,
                Some(high) => Some((high * 16 + low) as u8),
            }
        },
    }
}

/// Whether a text is made of pairs that stand for bytes.
pub open spec fn is_pairs(key: Seq<char>) -> bool {
    &&& key.len() % 2 == 0
    &&& forall|i: int|
        0 <= i < key.len() / 2 ==> (#[trigger] pair_value(key[2 * i], key[2 * i + 1])) is Some
}

/// The bytes that the pairs of a text stand for.
pub open spec fn pair_bytes(key: Seq<char>) -> Seq<u8> {
    Seq::new(key.len() / 2, |i: int| pair_value(key[2 * i], key[2 * i + 1])->Some_0)
}

/// The value of a hexadecimal digit.
fn digit(c: char) -> (value: Option<u8>)
    ensures
        value is Some <==> crate::encoding::hex_value(c) is Some,
        value matches Some(v) ==> v == crate::encoding::hex_value(c)->Some_0 && v < 16,
{
    if '0' <= c && c <= '9' {
        Some((c as u32 - 48) as u8)
    } else if 'a' <= c && c <= 'f' {
        Some((c as u32 - 87) as u8)
    } else if 'A' <= c && c <= 'F' {
        Some((c as u32 - 55) as u8)
    } else {
        None
    }
}

/// The byte that a pair of characters stands for.
fn read_pair(first: char, second: char) -> (value: Option<u8>)
    ensures
        value == pair_value(first, second),
{
    match digit(second) {
        None => None,
        Some(low) => if first == '+' {
            Some(low)
        } else {
            match digit(first) {
                None => None,
                Some(high) => Some(high * 16 + low),
            }
        },
    }
}

/// The bytes that the pairs of a text stand for; nothing if it is not made of
/// such pairs.
pub fn key_bytes(key: &str) -> (bytes: Option<Vec<u8>>)
    ensures
        bytes is Some <==> is_pairs(key@),
        bytes matches Some(list) ==> list@ == pair_bytes(key@),
{
    let chars = text::to_chars(key);
    if chars.len() % 2 != 0 {
        return None;
    }
    let mut bytes: Vec<u8> = Vec::new();
    let mut i: usize = 0;
    while i < chars.len() / 2
        invariant
            chars@ == key@,
            chars@.len() % 2 == 0,
            i <= chars@.len() / 2,
            bytes@.len() == i,
            forall|k: int|
                0 <= k < i ==> (#[trigger] pair_value(key@[2 * k], key@[2 * k + 1])) == Some(
                    bytes@[k],
                ),
        decreases chars@.len() / 2 - i,
    {
        match read_pair(chars[2 * i], chars[2 * i + 1]) {
            Some(byte) => {
                bytes.push(byte);
            },
            None => {
                assert(pair_value(key@[2 * i], key@[2 * i + 1]) is None);
                return None;
            },
        }
        i = i + 1;
    }
    assert(bytes@ =~= pair_bytes(key@)) by {
        assert forall|k: int| 0 <= k < bytes@.len() implies bytes@[k] == pair_bytes(key@)[k] by {
            assert(pair_value(key@[2 * k], key@[2 * k + 1]) == Some(bytes@[k]));
        }
    }
    Some(bytes)
}

/// The text that stands for the file at a path: the name of its directory and
/// its own.
pub open spec fn key_text(keys: Seq<PartKey>) -> Option<Seq<char>> {
    match (name_at_end(keys), name_at_end(keys.drop_last())) {
        (Some(name), Some(directory)) => Some(directory + name),
        _ => None,
    }
}

/// The identifier of the file at a path, which its name and that of its
/// directory spell; nothing if they do not spell one.
pub fn removed_key(path: &CachePath) -> (bytes: Option<Vec<u8>>)
    ensures
        bytes is Some <==> key_text(path.keys()) is Some && is_pairs(key_text(path.keys())->Some_0),
        bytes matches Some(list) ==> list@ == pair_bytes(key_text(path.keys())->Some_0),
{
    let count: usize = path.parts.len();
    if count < 2 {
        return None;
    }
    assert(path.keys().last() == path_reading::part_key(path.parts@[count - 1].part));
    assert(path.keys().drop_last().last() == path_reading::part_key(path.parts@[count - 2].part));
    match (&path.parts[count - 1].part, &path.parts[count - 2].part) {
        (PathPart::Normal(name), PathPart::Normal(directory)) => {
            let key = text::concat(directory.as_str(), name.as_str());
            key_bytes(key.as_str())
        },
        _ => None,
    }
}

/// Two hexadecimal digits stand for the byte that they are the digits of.
proof fn lemma_pair(first: char, second: char)
    requires
        crate::encoding::hex_value(first) is Some,
        crate::encoding::hex_value(second) is Some,
    ensures
        pair_value(first, second) == Some(
            (16 * crate::encoding::hex_value(first)->0 + crate::encoding::hex_value(second)->0) as u8,
        ),
{
}

/// The file of a cache is known by its identifier: the hexadecimal form of an
/// identifier spells that identifier.
pub proof fn law_name_spells_the_file(file: FileId)
    ensures
        is_pairs(crate::encoding::lower_hex(file.0@)),
        pair_bytes(crate::encoding::lower_hex(file.0@)) == file.0@,
{
    let key = crate::encoding::lower_hex(file.0@);
    crate::encoding::law_hex_round_trip(file.0@);
    lemma_hex_is_pairs(key);
}

/// Hexadecimal digits are pairs that stand for the same bytes.
proof fn lemma_hex_is_pairs(key: Seq<char>)
    requires
        crate::encoding::is_hex(key),
    ensures
        is_pairs(key),
        pair_bytes(key) == crate::encoding::hex_bytes(key),
{
    assert forall|i: int| 0 <= i < key.len() / 2 implies (#[trigger] pair_value(
        key[2 * i],
        key[2 * i + 1],
    )) == Some(crate::encoding::hex_bytes(key)[i]) by {
        assert(crate::encoding::hex_value(key[2 * i]) is Some);
        assert(crate::encoding::hex_value(key[2 * i + 1]) is Some);
        lemma_pair(key[2 * i], key[2 * i + 1]);
    }
    assert(pair_bytes(key) =~= crate::encoding::hex_bytes(key)) by {
        assert forall|i: int| 0 <= i < key.len() / 2 implies pair_bytes(key)[i]
            == crate::encoding::hex_bytes(key)[i] by {
            assert(pair_value(key[2 * i], key[2 * i + 1]) == Some(
                crate::encoding::hex_bytes(key)[i],
            ));
        }
    }
}

/// The lines of a list that hold more than white space, without the white
/// space around them.
pub open spec fn kept_lines(lines: Seq<Seq<char>>) -> Seq<Seq<char>>
    decreases lines.len(),
{
    if lines.len() == 0 {
        Seq::empty()
    } else {
        let before = kept_lines(lines.drop_last());
        let line = text::trimmed(lines.last());
        if line.len() == 0 {
            before
        } else {
            before.push(line)
        }
    }
}

/// The paths, as they are written, that the list of due deletions holds.
pub fn pending_lines(content: &str) -> (lines: Vec<String>)
    ensures
        text::texts(lines@) == kept_lines(text::pieces(content@, '\n')),
{
    let all = text::split(content, '\n');
    let ghost given = text::texts(all@);
    let mut lines: Vec<String> = Vec::new();
    let mut i: usize = 0;
    assert(text::texts(lines@) =~= Seq::empty());
    assert(given.take(0) =~= Seq::empty());
    while i < all.len()
        invariant
            given == text::texts(all@),
            i <= all@.len(),
            text::texts(lines@) == kept_lines(given.take(i as int)),
        decreases all@.len() - i,
    {
        assert(given.take(i + 1).drop_last() =~= given.take(i as int));
        assert(given.take(i + 1).last() == given[i as int]);
        let line = text::trim(all[i].as_str());
        let ghost before = text::texts(lines@);
        if !text::is_empty(line.as_str()) {
            let ghost trimmed = line@;
            lines.push(line);
            assert(text::texts(lines@) =~= before.push(trimmed));
        }
        i = i + 1;
    }
    assert(given.take(i as int) =~= given);
    lines
}

/// The files whose deletion is due, as paths inside the cache.
#[derive(Debug)]
pub struct PendingDeletes {
    pub entries: Vec<CachePath>,
}

/// The keys of paths.
pub open spec fn path_keys(paths: Seq<CachePath>) -> Seq<Seq<PartKey>> {
    Seq::new(paths.len(), |i: int| paths[i].keys())
}

/// Each path as it is written, and a line end after it.
pub open spec fn rendered(paths: Seq<CachePath>) -> Seq<char>
    decreases paths.len(),
{
    if paths.len() == 0 {
        Seq::empty()
    } else {
        (rendered(paths.drop_last()) + paths.last().text@).push('\n')
    }
}

/// Whether a path is the one at `i` of a list, and none before that is the same.
pub open spec fn is_at(path: CachePath, paths: Seq<CachePath>, i: int) -> bool {
    &&& 0 <= i < paths.len()
    &&& path.keys() == paths[i].keys()
    &&& path.text@ == paths[i].text@
    &&& forall|k: int| 0 <= k < i ==> #[trigger] paths[k].keys() != path.keys()
}

/// Whether a path is written as the first of a list that is the same path.
pub open spec fn is_first_of(path: CachePath, paths: Seq<CachePath>) -> bool {
    exists|i: int| #[trigger] is_at(path, paths, i)
}

/// Whether a list is another one with a path put on it, written as `content`,
/// unless it was on it.
pub open spec fn put_on(
    before: PendingDeletes,
    after: PendingDeletes,
    keys: Seq<PartKey>,
    content: Seq<char>,
) -> bool {
    if before.paths().contains(keys) {
        after.entries@ == before.entries@
    } else {
        exists|at: int, entry: CachePath|
            0 <= at <= before.entries@.len() && after.entries@ == #[trigger] before.entries@.insert(
                at,
                entry,
            ) && entry.keys() == keys && entry.text@ == content
    }
}

/// Whether a list is another one with a path taken off it, if it was on it.
pub open spec fn taken_off(
    before: PendingDeletes,
    after: PendingDeletes,
    keys: Seq<PartKey>,
) -> bool {
    if before.paths().contains(keys) {
        exists|at: int|
            0 <= at < before.entries@.len() && before.entries@[at].keys() == keys && after.entries@
                == #[trigger] before.entries@.remove(at)
    } else {
        after.entries@ == before.entries@
    }
}

impl PendingDeletes {
    /// Whether each path comes before all that follow it, so that none is there
    /// twice.
    pub open spec fn wf(self) -> bool {
        forall|i: int, j: int|
            0 <= i < j < self.entries@.len() ==> path_less(
                #[trigger] path_keys(self.entries@)[i],
                #[trigger] path_keys(self.entries@)[j],
            )
    }

    /// The paths.
    pub open spec fn paths(self) -> Set<Seq<PartKey>> {
        path_keys(self.entries@).to_set()
    }

    /// No deletions.
    pub fn none() -> (pending: PendingDeletes)
        ensures
            pending.wf(),
            pending.entries@.len() == 0,
            pending.paths() == Set::<Seq<PartKey>>::empty(),
    {
        let pending = PendingDeletes { entries: Vec::new() };
        assert(pending.paths() =~= Set::<Seq<PartKey>>::empty());
        pending
    }

    /// The deletions that a list names.
    pub fn from_paths(paths: Vec<CachePath>) -> (pending: PendingDeletes)
        ensures
            pending.wf(),
            pending.paths() == path_keys(paths@).to_set(),
            forall|j: int|
                0 <= j < pending.entries@.len() ==> is_first_of(
                    #[trigger] pending.entries@[j],
                    paths@,
                ),
    {
        let mut pending = PendingDeletes::none();
        let mut i: usize = 0;
        let ghost keys = path_keys(paths@);
        assert(keys.take(0).to_set() =~= Set::<Seq<PartKey>>::empty());
        while i < paths.len()
            invariant
                keys == path_keys(paths@),
                i <= paths@.len(),
                pending.wf(),
                pending.paths() == keys.take(i as int).to_set(),
                forall|j: int|
                    0 <= j < pending.entries@.len() ==> is_first_of(
                        #[trigger] pending.entries@[j],
                        paths@,
                    ),
            decreases paths@.len() - i,
        {
            let ghost before = pending.entries@;
            let path = paths[i].copy();
            proof {
                if !keys.take(i as int).to_set().contains(path.keys()) {
                    assert forall|k: int| 0 <= k < i implies #[trigger] paths@[k].keys()
                        != path.keys() by {
                        assert(keys.take(i as int)[k] == paths@[k].keys());
                    }
                    assert(is_at(path, paths@, i as int));
                }
            }
            pending.insert(path);
            proof {
                assert forall|j: int| 0 <= j < pending.entries@.len() implies is_first_of(
                    #[trigger] pending.entries@[j],
                    paths@,
                ) by {
                    if pending.entries@ != before {
                        let at = choose|at: int|
                            0 <= at <= before.len() && pending.entries@ == #[trigger] before.insert(
                                at,
                                path,
                            );
                        if j < at {
                            assert(pending.entries@[j] == before[j]);
                        } else if j > at {
                            assert(pending.entries@[j] == before[j - 1]);
                        }
                    }
                }
            }
            proof {
                assert(keys.take(i + 1) =~= keys.take(i as int).push(keys[i as int]));
                lemma_to_set_push(keys.take(i as int), keys[i as int]);
            }
            i = i + 1;
        }
        assert(keys.take(i as int) =~= keys);
        pending
    }

    /// Adds a deletion. One that is due already stays as it is.
    pub fn insert(&mut self, path: CachePath)
        requires
            old(self).wf(),
        ensures
            final(self).wf(),
            final(self).paths() == old(self).paths().insert(path.keys()),
            old(self).paths().contains(path.keys()) ==> final(self).entries@ == old(self).entries@,
            !old(self).paths().contains(path.keys()) ==> exists|at: int|
                0 <= at <= old(self).entries@.len() && final(self).entries@
                    == #[trigger] old(self).entries@.insert(at, path),
    {
        let ghost before = path_keys(self.entries@);
        let ghost key = path.keys();
        let ghost lt = part_order();
        proof {
            lemma_part_order();
        }
        let mut at: usize = 0;
        while at < self.entries.len() && self.entries[at].before(&path)
            invariant
                before == path_keys(self.entries@),
                key == path.keys(),
                self.entries@ == old(self).entries@,
                at <= self.entries@.len(),
                forall|i: int| 0 <= i < at ==> path_less(#[trigger] before[i], key),
            decreases self.entries@.len() - at,
        {
            assert(before[at as int] == self.entries@[at as int].keys());
            at = at + 1;
        }
        if at < self.entries.len() && self.entries[at].same(&path) {
            assert(before[at as int] == key);
            assert(before.to_set().insert(key) =~= before.to_set());
            return;
        }
        proof {
            if before.contains(key) {
                let k = choose|k: int| 0 <= k < before.len() && before[k] == key;
                order::lemma_less_irreflexive(key, lt);
                assert(k >= at);
                assert(k != at);
                assert(path_less(before[at as int], before[k]));
            }
        }
        self.entries.insert(at, path);
        assert(self.entries@ == old(self).entries@.insert(at as int, path));
        let ghost after = path_keys(self.entries@);
        assert(after =~= before.insert(at as int, key));
        proof {
            if at < before.len() {
                order::lemma_less_total(key, before[at as int], lt);
            }
            assert forall|i: int, j: int| 0 <= i < j < after.len() implies path_less(
                #[trigger] after[i],
                #[trigger] after[j],
            ) by {
                if i == at && j > at + 1 {
                    assert(path_less(before[at as int], before[j - 1]));
                    order::lemma_less_transitive(key, before[at as int], before[j - 1], lt);
                }
            }
            lemma_to_set_insert(before, at as int, key);
        }
    }

    /// Takes a deletion off the list. Tells whether it was on it.
    pub fn remove(&mut self, path: &CachePath) -> (was_due: bool)
        requires
            old(self).wf(),
        ensures
            final(self).wf(),
            was_due == old(self).paths().contains(path.keys()),
            final(self).paths() == old(self).paths().remove(path.keys()),
            taken_off(*old(self), *final(self), path.keys()),
    {
        let ghost before = path_keys(self.entries@);
        let ghost key = path.keys();
        let mut at: usize = 0;
        while at < self.entries.len() && !self.entries[at].same(path)
            invariant
                before == path_keys(self.entries@),
                key == path.keys(),
                self.entries@ == old(self).entries@,
                at <= self.entries@.len(),
                forall|i: int| 0 <= i < at ==> #[trigger] before[i] != key,
            decreases self.entries@.len() - at,
        {
            assert(before[at as int] == self.entries@[at as int].keys());
            at = at + 1;
        }
        if at >= self.entries.len() {
            assert(before.to_set().remove(key) =~= before.to_set());
            return false;
        }
        assert(before[at as int] == key);
        assert(old(self).entries@[at as int].keys() == key);
        self.entries.remove(at);
        assert(self.entries@ == old(self).entries@.remove(at as int));
        let ghost after = path_keys(self.entries@);
        assert(after =~= before.remove(at as int));
        proof {
            assert forall|i: int, j: int| 0 <= i < j < after.len() implies path_less(
                #[trigger] after[i],
                #[trigger] after[j],
            ) by {
                let x = if i < at {
                    i
                } else {
                    i + 1
                };
                let y = if j < at {
                    j
                } else {
                    j + 1
                };
                assert(path_less(before[x], before[y]));
            }
            assert forall|x: Seq<PartKey>| after.contains(x) <==> before.contains(x) && x != key by {
                if after.contains(x) {
                    let k = choose|k: int| 0 <= k < after.len() && after[k] == x;
                    let m = if k < at {
                        k
                    } else {
                        k + 1
                    };
                    assert(before[m] == x);
                    order::lemma_less_irreflexive(key, part_order());
                    if m < at {
                        assert(path_less(before[m], before[at as int]));
                    } else {
                        assert(path_less(before[at as int], before[m]));
                    }
                }
                if before.contains(x) && x != key {
                    let k = choose|k: int| 0 <= k < before.len() && before[k] == x;
                    if k < at {
                        assert(after[k] == x);
                    } else {
                        assert(after[k - 1] == x);
                    }
                }
            }
            assert(after.to_set() =~= before.to_set().remove(key));
        }
        true
    }

    /// The list as it is stored.
    pub fn contents(&self) -> (content: String)
        ensures
            content@ == rendered(self.entries@),
    {
        let mut content = String::new();
        let mut i: usize = 0;
        assert(content@ =~= rendered(self.entries@.take(0)));
        while i < self.entries.len()
            invariant
                i <= self.entries@.len(),
                content@ == rendered(self.entries@.take(i as int)),
            decreases self.entries@.len() - i,
        {
            assert(self.entries@.take(i + 1).drop_last() =~= self.entries@.take(i as int));
            content.append(self.entries[i].text.as_str());
            content.push('\n');
            i = i + 1;
        }
        assert(self.entries@.take(i as int) =~= self.entries@);
        content
    }
}

/// A sequence with one more element has one more member.
proof fn lemma_to_set_push<T>(list: Seq<T>, value: T)
    ensures
        list.push(value).to_set() == list.to_set().insert(value),
{
    lemma_to_set_insert(list, list.len() as int, value);
    assert(list.insert(list.len() as int, value) =~= list.push(value));
}

/// A sequence with an element put in has one more member.
proof fn lemma_to_set_insert<T>(list: Seq<T>, at: int, value: T)
    requires
        0 <= at <= list.len(),
    ensures
        list.insert(at, value).to_set() == list.to_set().insert(value),
{
    let after = list.insert(at, value);
    assert forall|x: T| after.contains(x) <==> list.contains(x) || x == value by {
        if after.contains(x) {
            let k = choose|k: int| 0 <= k < after.len() && after[k] == x;
            if k < at {
                assert(list[k] == x);
            } else if k > at {
                assert(list[k - 1] == x);
            }
        }
        if list.contains(x) {
            let k = choose|k: int| 0 <= k < list.len() && list[k] == x;
            if k < at {
                assert(after[k] == x);
            } else {
                assert(after[k + 1] == x);
            }
        }
        assert(after[at] == value);
    }
    assert(after.to_set() =~= list.to_set().insert(value));
}

/// A path lies in itself, in whatever that lies in, and in every path that it
/// continues; it lies in another exactly if all parts of that stand before the
/// rest of its own.
pub proof fn law_what_lies_in_a_directory(
    path: CachePath,
    root: CachePath,
    outer: CachePath,
    name: Seq<char>,
)
    ensures
        path.lies_in(path),
        path.lies_in(root) && root.lies_in(outer) ==> path.lies_in(outer),
        path.keys() == root.joined_keys(name) ==> path.lies_in(root),
        path.lies_in(root) <==> root.keys().len() <= path.keys().len() && path.keys().take(
            root.keys().len() as int,
        ) == root.keys(),
        path.lies_in(root) && root.lies_in(path) ==> path.keys() == root.keys(),
{
    assert(path.keys() =~= path.keys().take(path.keys().len() as int));
    if path.lies_in(root) && root.lies_in(outer) {
        let n = outer.keys().len() as int;
        assert(root.keys() =~= path.keys().take(root.keys().len() as int));
        assert(outer.keys() =~= root.keys().take(n));
        assert(outer.keys() =~= path.keys().take(n)) by {
            assert forall|k: int| 0 <= k < n implies outer.keys()[k] == path.keys()[k] by {
                assert(root.keys().take(n)[k] == root.keys()[k]);
                assert(path.keys().take(root.keys().len() as int)[k] == path.keys()[k]);
            }
        }
    }
    if path.keys() == root.joined_keys(name) {
        assert(root.keys() =~= path.keys().take(root.keys().len() as int));
    }
    if path.lies_in(root) && root.lies_in(path) {
        assert(path.keys() =~= root.keys());
    }
}

/// A pair stands for the byte of its two digits, the first with sixteen times its
/// value; a plus sign counts as nought before the second, and nothing else stands
/// for a byte.
pub proof fn law_pairs_stand_for_bytes(first: char, second: char)
    ensures
        ({
            let high = crate::encoding::hex_value(first);
            let low = crate::encoding::hex_value(second);
            let byte = pair_value(first, second);
            &&& byte is Some <==> low is Some && (first == '+' || high is Some)
            &&& byte matches Some(value) ==> {
                &&& first == '+' ==> value == low->Some_0
                &&& first != '+' ==> value == 16 * high->Some_0 + low->Some_0
            }
        }),
{
    lemma_digit_bounds(first);
    lemma_digit_bounds(second);
}

proof fn lemma_digit_bounds(c: char)
    ensures
        crate::encoding::hex_value(c) matches Some(value) ==> 0 <= value < 16,
        crate::encoding::hex_value('+') is None,
{
}

/// A file is named by its directory and its own name together, and only where
/// both are names.
pub proof fn law_a_file_is_named_by_its_last_two_parts(
    keys: Seq<PartKey>,
    directory: Seq<char>,
    name: Seq<char>,
)
    ensures
        key_text(keys.push((4, directory)).push((4, name))) == Some(directory + name),
        keys.len() < 2 ==> key_text(keys) is None,
        keys.len() >= 2 ==> (key_text(keys) is Some <==> keys[keys.len() - 1].0 == 4
            && keys[keys.len() - 2].0 == 4),
{
    let longer = keys.push((4, directory)).push((4, name));
    assert(longer.drop_last() =~= keys.push((4, directory)));
    if keys.len() >= 2 {
        assert(keys.drop_last().last() == keys[keys.len() - 2]);
    }
}

/// The lines of a list are gone through part by part, each without the white
/// space around it, and those with nothing else are passed over.
pub proof fn law_lines_with_content_are_kept(a: Seq<Seq<char>>, b: Seq<Seq<char>>, line: Seq<char>)
    ensures
        kept_lines(a + b) == kept_lines(a) + kept_lines(b),
        text::trimmed(line).len() > 0 ==> kept_lines(seq![line]) == seq![text::trimmed(line)],
        text::trimmed(line).len() == 0 ==> kept_lines(seq![line]) == Seq::<Seq<char>>::empty(),
    decreases b.len(),
{
    let one = seq![line];
    assert(one.drop_last() =~= Seq::empty());
    assert(kept_lines(one.drop_last()) =~= Seq::empty());
    if text::trimmed(line).len() > 0 {
        assert(kept_lines(one) =~= seq![text::trimmed(line)]);
    }
    if b.len() == 0 {
        assert(a + b =~= a);
        assert(kept_lines(a) + kept_lines(b) =~= kept_lines(a));
    } else {
        law_lines_with_content_are_kept(a, b.drop_last(), line);
        assert((a + b).drop_last() =~= a + b.drop_last());
        assert((a + b).last() == b.last());
        assert(kept_lines(a + b) =~= kept_lines(a) + kept_lines(b));
    }
}

/// A text without separators goes on the last piece of what stands before it.
proof fn lemma_pieces_continued(before: Seq<char>, more: Seq<char>, separator: char)
    requires
        !more.contains(separator),
    ensures
        text::pieces(before + more, separator) == text::pieces(
            before,
            separator,
        ).drop_last().push(text::pieces(before, separator).last() + more),
    decreases more.len(),
{
    let start = text::pieces(before, separator);
    text::lemma_pieces_nonempty(before, separator);
    if more.len() == 0 {
        assert(before + more =~= before);
        assert(start.last() + more =~= start.last());
        assert(start.drop_last().push(start.last()) =~= start);
    } else {
        let less = more.drop_last();
        assert forall|k: int| 0 <= k < less.len() implies less[k] != separator by {
            assert(more[k] != separator);
        }
        lemma_pieces_continued(before, less, separator);
        assert(more[more.len() - 1] != separator);
        let whole = before + more;
        assert(whole.drop_last() =~= before + less);
        assert(whole.last() == more.last());
        let last = start.last() + less;
        assert(last.push(more.last()) =~= start.last() + more);
        assert(start.drop_last().push(last).drop_last() =~= start.drop_last());
    }
}

/// A list of due deletions that was written reads back: its lines are the paths
/// as they are written, in their order. A path with the end of a line in it, or
/// with white space around it, cannot be told from others in a list.
pub proof fn law_the_list_of_deletions_reads_back(paths: Seq<CachePath>)
    requires
        forall|i: int|
            0 <= i < paths.len() ==> {
                let line = (#[trigger] paths[i]).text@;
                line.len() > 0 && text::trimmed(line) == line && !line.contains('\n')
            },
    ensures
        kept_lines(text::pieces(rendered(paths), '\n')) == Seq::new(
            paths.len(),
            |i: int| paths[i].text@,
        ),
        text::pieces(rendered(paths), '\n').last().len() == 0,
    decreases paths.len(),
{
    let texts = Seq::new(paths.len(), |i: int| paths[i].text@);
    if paths.len() == 0 {
        let nothing = text::pieces(rendered(paths), '\n');
        assert(nothing =~= seq![Seq::empty()]);
        assert(nothing.drop_last() =~= Seq::empty());
        assert(kept_lines(nothing.drop_last()) =~= Seq::empty());
        assert(text::trimmed(Seq::<char>::empty()).len() == 0);
        assert(kept_lines(nothing) =~= texts);
    } else {
        let head = paths.drop_last();
        let line = paths.last().text@;
        assert forall|i: int| 0 <= i < head.len() implies {
            let line = (#[trigger] head[i]).text@;
            line.len() > 0 && text::trimmed(line) == line && !line.contains('\n')
        } by {
            assert(head[i] == paths[i]);
        }
        assert(paths[paths.len() - 1].text@ == line);
        law_the_list_of_deletions_reads_back(head);
        let before = text::pieces(rendered(head), '\n');
        text::lemma_pieces_nonempty(rendered(head), '\n');
        lemma_pieces_continued(rendered(head), line, '\n');
        assert(before.last() + line =~= line);
        let with_line = before.drop_last().push(line);
        let whole = rendered(paths);
        assert(whole.drop_last() =~= rendered(head) + line);
        let after = text::pieces(whole, '\n');
        assert(after == with_line.push(Seq::empty()));
        assert(after.drop_last() =~= with_line);
        assert(with_line.drop_last() =~= before.drop_last());
        assert(text::trimmed(Seq::<char>::empty()).len() == 0);
        assert(before.last() =~= Seq::empty());
        assert(kept_lines(before) == kept_lines(before.drop_last()));
        assert(kept_lines(with_line) == kept_lines(before.drop_last()).push(line));
        assert(kept_lines(after) == kept_lines(with_line));
        assert(kept_lines(after) =~= texts);
    }
}

/// A deletion that was put on the list is due, and one that was taken off is not;
/// all others are as they were.
pub proof fn law_deletions_are_put_on_and_taken_off(
    before: PendingDeletes,
    added: PendingDeletes,
    removed: PendingDeletes,
    keys: Seq<PartKey>,
    content: Seq<char>,
)
    requires
        before.wf(),
        put_on(before, added, keys, content),
        taken_off(before, removed, keys),
    ensures
        added.paths() == before.paths().insert(keys),
        removed.paths() == before.paths().remove(keys),
        !before.paths().contains(keys) ==> exists|i: int|
            0 <= i < added.entries@.len() && (#[trigger] added.entries@[i]).keys() == keys
                && added.entries@[i].text@ == content,
{
    let all = path_keys(before.entries@);
    if before.paths().contains(keys) {
        assert(before.paths().insert(keys) =~= before.paths());
        let at = choose|at: int|
            0 <= at < before.entries@.len() && before.entries@[at].keys() == keys
                && removed.entries@ == #[trigger] before.entries@.remove(at);
        let left = path_keys(removed.entries@);
        assert(left =~= all.remove(at));
        assert forall|x: Seq<PartKey>| #[trigger]
            removed.paths().contains(x) <==> before.paths().remove(keys).contains(x) by {
            if left.contains(x) {
                let k = choose|k: int| 0 <= k < left.len() && left[k] == x;
                let m = if k < at {
                    k
                } else {
                    k + 1
                };
                assert(all[m] == x);
                assert(all.contains(x));
                order::lemma_less_irreflexive(keys, part_order());
                if k < at {
                    assert(path_less(all[m], all[at]));
                } else {
                    assert(path_less(all[at], all[m]));
                }
                assert(x != keys);
            }
            if all.contains(x) && x != keys {
                let m = choose|m: int| 0 <= m < all.len() && all[m] == x;
                assert(all[at] == keys);
                if m < at {
                    assert(left[m] == x);
                } else {
                    assert(left[m - 1] == x);
                }
                assert(left.contains(x));
            }
        }
        assert(removed.paths() =~= before.paths().remove(keys));
    } else {
        assert(before.paths().remove(keys) =~= before.paths());
        let (at, entry) = choose|at: int, entry: CachePath|
            0 <= at <= before.entries@.len() && added.entries@ == #[trigger] before.entries@.insert(
                at,
                entry,
            ) && entry.keys() == keys && entry.text@ == content;
        assert(path_keys(added.entries@) =~= all.insert(at, keys));
        lemma_to_set_insert(all, at, keys);
        assert(added.entries@[at] == entry);
    }
}

} // verus!
