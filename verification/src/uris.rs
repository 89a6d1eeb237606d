//! Addresses of tracks, albums, artists and playlists: where they are found, and
//! in which order they are listed.
use crate::encoding;
use crate::order;
use crate::text;
use vstd::prelude::*;

verus! {

/// The texts of a list that begin with a prefix.
pub open spec fn with_prefix(list: Seq<Seq<char>>, prefix: Seq<char>) -> Seq<Seq<char>>
    decreases list.len(),
{
    if list.len() == 0 {
        Seq::empty()
    } else {
        let before = with_prefix(list.drop_last(), prefix);
        if text::occurs_at(list.last(), prefix, 0) {
            before.push(list.last())
        } else {
            before
        }
    }
}

/// What begins with a prefix in two lists, one after the other.
pub proof fn lemma_with_prefix_add(a: Seq<Seq<char>>, b: Seq<Seq<char>>, prefix: Seq<char>)
    ensures
        with_prefix(a + b, prefix) == with_prefix(a, prefix) + with_prefix(b, prefix),
    decreases b.len(),
{
    if b.len() == 0 {
        assert(a + b =~= a);
        assert(with_prefix(a, prefix) + with_prefix(b, prefix) =~= with_prefix(a, prefix));
    } else {
        lemma_with_prefix_add(a, b.drop_last(), prefix);
        assert((a + b).drop_last() =~= a + b.drop_last());
        assert((a + b).last() == b.last());
        assert(with_prefix(a + b, prefix) =~= with_prefix(a, prefix) + with_prefix(b, prefix));
    }
}

/// What begins with a prefix in a list of one.
pub proof fn lemma_with_prefix_one(content: Seq<char>, prefix: Seq<char>)
    ensures
        with_prefix(seq![content], prefix) == if text::occurs_at(content, prefix, 0) {
            seq![content]
        } else {
            Seq::empty()
        },
{
    let list = seq![content];
    assert(list.drop_last() =~= Seq::empty());
    assert(with_prefix(list.drop_last(), prefix) == Seq::<Seq<char>>::empty());
    assert(with_prefix(list, prefix) =~= if text::occurs_at(content, prefix, 0) {
        seq![content]
    } else {
        Seq::empty()
    });
}

/// A list without the texts that it had before.
pub open spec fn distinct(list: Seq<Seq<char>>) -> Seq<Seq<char>>
    decreases list.len(),
{
    if list.len() == 0 {
        Seq::empty()
    } else {
        let before = distinct(list.drop_last());
        if before.contains(list.last()) {
            before
        } else {
            before.push(list.last())
        }
    }
}

/// No text is in a list of distinct texts twice, and none is lost.
pub proof fn law_distinct_lists_each_text_once(list: Seq<Seq<char>>)
    ensures
        distinct(list).no_duplicates(),
        forall|x: Seq<char>| #[trigger] distinct(list).contains(x) <==> list.contains(x),
    decreases list.len(),
{
    if list.len() > 0 {
        law_distinct_lists_each_text_once(list.drop_last());
        let before = distinct(list.drop_last());
        let after = distinct(list);
        assert forall|x: Seq<char>| after.contains(x) <==> list.contains(x) by {
            if list.contains(x) {
                let k = choose|k: int| 0 <= k < list.len() && list[k] == x;
                if k < list.len() - 1 {
                    assert(list.drop_last()[k] == x);
                    assert(list.drop_last().contains(x));
                    assert(before.contains(x));
                    let m = choose|m: int| 0 <= m < before.len() && before[m] == x;
                    assert(after[m] == x);
                } else if !before.contains(x) {
                    assert(after[after.len() - 1] == x);
                }
            }
            if after.contains(x) {
                let k = choose|k: int| 0 <= k < after.len() && after[k] == x;
                if k < before.len() {
                    assert(before[k] == x);
                    assert(before.contains(x));
                    assert(list.drop_last().contains(x));
                    let m = choose|m: int| 0 <= m < list.len() - 1 && list.drop_last()[m] == x;
                    assert(list[m] == x);
                } else {
                    assert(list[list.len() - 1] == x);
                }
            }
        }
    }
}

/// Whether a text is in a list.
fn is_listed(list: &Vec<String>, entry: &str) -> (listed: bool)
    ensures
        listed == text::texts(list@).contains(entry@),
{
    let mut i: usize = 0;
    while i < list.len()
        invariant
            i <= list@.len(),
            forall|k: int| 0 <= k < i ==> #[trigger] text::texts(list@)[k] != entry@,
        decreases list@.len() - i,
    {
        if text::same_text(list[i].as_str(), entry) {
            assert(text::texts(list@)[i as int] == entry@);
            return true;
        }
        assert(text::texts(list@)[i as int] != entry@);
        i = i + 1;
    }
    false
}

/// Adds a text to a list, unless it is in it already.
pub fn push_distinct(list: &mut Vec<String>, entry: &str)
    ensures
        text::texts(final(list)@) == if text::texts(old(list)@).contains(entry@) {
            text::texts(old(list)@)
        } else {
            text::texts(old(list)@).push(entry@)
        },
{
    let ghost before = text::texts(list@);
    if !is_listed(list, entry) {
        list.push(entry.to_owned());
        assert(text::texts(list@) =~= before.push(entry@));
    }
}

/// The texts of a list, each where it comes first.
pub fn distinct_texts(list: &Vec<String>) -> (result: Vec<String>)
    ensures
        text::texts(result@) == distinct(text::texts(list@)),
{
    let mut result: Vec<String> = Vec::new();
    let ghost given = text::texts(list@);
    let mut i: usize = 0;
    assert(given.take(0) =~= Seq::empty());
    assert(text::texts(result@) =~= Seq::empty());
    while i < list.len()
        invariant
            given == text::texts(list@),
            i <= list@.len(),
            text::texts(result@) == distinct(given.take(i as int)),
        decreases list@.len() - i,
    {
        assert(given.take(i + 1).drop_last() =~= given.take(i as int));
        assert(given.take(i + 1).last() == given[i as int]);
        push_distinct(&mut result, list[i].as_str());
        i = i + 1;
    }
    assert(given.take(i as int) =~= given);
    result
}

/// The texts of a list that begin with a prefix, each where it comes first.
pub fn distinct_with_prefix(list: &Vec<String>, prefix: &str) -> (result: Vec<String>)
    ensures
        text::texts(result@) == distinct(with_prefix(text::texts(list@), prefix@)),
{
    let mut result: Vec<String> = Vec::new();
    let ghost given = text::texts(list@);
    let mut i: usize = 0;
    assert(given.take(0) =~= Seq::empty());
    assert(text::texts(result@) =~= Seq::empty());
    while i < list.len()
        invariant
            given == text::texts(list@),
            i <= list@.len(),
            text::texts(result@) == distinct(with_prefix(given.take(i as int), prefix@)),
        decreases list@.len() - i,
    {
        assert(given.take(i + 1).drop_last() =~= given.take(i as int));
        assert(given.take(i + 1).last() == given[i as int]);
        let ghost kept = with_prefix(given.take(i as int), prefix@);
        assert(kept.push(given[i as int]).drop_last() =~= kept);
        if text::starts_with(list[i].as_str(), prefix) {
            push_distinct(&mut result, list[i].as_str());
        }
        i = i + 1;
    }
    assert(given.take(i as int) =~= given);
    result
}

/// Whether a character can stand in an address that is picked out of a text.
pub open spec fn is_uri_char(c: char) -> bool {
    ||| '0' <= c <= '9'
    ||| 'a' <= c <= 'z'
    ||| 'A' <= c <= 'Z'
    ||| c == ':'
    ||| c == '_'
}

/// Whether a character can stand in an address that is picked out of a text.
fn uri_char(c: char) -> (allowed: bool)
    ensures
        allowed == is_uri_char(c),
{
    ('0' <= c && c <= '9') || ('a' <= c && c <= 'z') || ('A' <= c && c <= 'Z') || c == ':' || c
        == '_'
}

/// The characters at the start of a text that can stand in an address.
pub open spec fn leading_uri(content: Seq<char>) -> Seq<char>
    decreases content.len(),
{
    if content.len() > 0 && is_uri_char(content.first()) {
        seq![content.first()] + leading_uri(content.skip(1))
    } else {
        Seq::empty()
    }
}

/// The addresses in a text: wherever the prefix stands, what can stand in an
/// address from there on.
pub open spec fn scanned(content: Seq<char>, prefix: Seq<char>) -> Seq<Seq<char>>
    decreases content.len(),
{
    if content.len() == 0 {
        Seq::empty()
    } else if prefix.len() > 0 && text::occurs_at(content, prefix, 0) {
        let found = leading_uri(content);
        (if found.len() > 0 {
            seq![found]
        } else {
            Seq::empty()
        }) + scanned(content.skip(prefix.len() as int), prefix)
    } else {
        scanned(content.skip(1), prefix)
    }
}

/// Where the characters that can stand in an address end.
fn uri_end(chars: &Vec<char>, from: usize) -> (end: usize)
    requires
        from <= chars@.len(),
    ensures
        from <= end <= chars@.len(),
        chars@.subrange(from as int, end as int) == leading_uri(chars@.skip(from as int)),
{
    let mut end: usize = from;
    assert(chars@.subrange(from as int, from as int) + leading_uri(chars@.skip(from as int))
        =~= leading_uri(chars@.skip(from as int)));
    while end < chars.len() && uri_char(chars[end])
        invariant
            from <= end <= chars@.len(),
            chars@.subrange(from as int, end as int) + leading_uri(chars@.skip(end as int))
                == leading_uri(chars@.skip(from as int)),
        decreases chars@.len() - end,
    {
        assert(chars@.skip(end as int).skip(1) =~= chars@.skip(end + 1));
        assert(chars@.subrange(from as int, end + 1) + leading_uri(chars@.skip(end + 1))
            =~= chars@.subrange(from as int, end as int) + leading_uri(chars@.skip(end as int)));
        end = end + 1;
    }
    assert(chars@.subrange(from as int, end as int) + Seq::<char>::empty() =~= chars@.subrange(
        from as int,
        end as int,
    ));
    end
}

/// A list to which texts were added unless they were in it.
pub open spec fn extended(list: Seq<Seq<char>>, more: Seq<Seq<char>>) -> Seq<Seq<char>>
    decreases more.len(),
{
    if more.len() == 0 {
        list
    } else {
        let first = more.first();
        extended(
            if list.contains(first) {
                list
            } else {
                list.push(first)
            },
            more.skip(1),
        )
    }
}

/// Adding texts from the first to the last lists each where it comes first.
proof fn lemma_extended(done: Seq<Seq<char>>, more: Seq<Seq<char>>)
    ensures
        extended(distinct(done), more) == distinct(done + more),
    decreases more.len(),
{
    if more.len() == 0 {
        assert(done + more =~= done);
    } else {
        let next = done.push(more.first());
        assert(next.drop_last() =~= done);
        lemma_extended(next, more.skip(1));
        assert(next + more.skip(1) =~= done + more);
    }
}

/// The addresses with a prefix that stand in bytes, whatever else the bytes
/// are, each where it comes first.
pub fn extract_spotify_uris_from_bytes(bytes: &[u8], prefix: &str) -> (output: Vec<String>)
    requires
        prefix@.len() > 0,
    ensures
        text::texts(output@) == distinct(scanned(encoding::utf8_lossy(bytes@), prefix@)),
{
    let content = encoding::decode_lossy(bytes);
    extract_spotify_uris(content.as_str(), prefix)
}

/// The addresses with a prefix that stand in a text, each where it comes first.
pub fn extract_spotify_uris(content: &str, prefix: &str) -> (output: Vec<String>)
    requires
        prefix@.len() > 0,
    ensures
        text::texts(output@) == distinct(scanned(content@, prefix@)),
{
    let chars = text::to_chars(content);
    let pattern = text::to_chars(prefix);
    let ghost whole = content@;
    let mut output: Vec<String> = Vec::new();
    let mut i: usize = 0;
    assert(whole.skip(0) =~= whole);
    assert(text::texts(output@) =~= distinct(Seq::empty()));
    proof {
        lemma_extended(Seq::empty(), scanned(whole, prefix@));
        assert(Seq::<Seq<char>>::empty() + scanned(whole, prefix@) =~= scanned(whole, prefix@));
    }
    while i < chars.len()
        invariant
            chars@ == whole,
            pattern@ == prefix@,
            prefix@.len() > 0,
            i <= chars@.len(),
            extended(text::texts(output@), scanned(whole.skip(i as int), prefix@)) == distinct(
                scanned(whole, prefix@),
            ),
        decreases chars@.len() - i,
    {
        let ghost rest = whole.skip(i as int);
        let ghost later = scanned(rest.skip(prefix@.len() as int), prefix@);
        if text::matches_at(&chars, &pattern, i) {
            let end: usize = uri_end(&chars, i);
            proof {
                assert(rest.subrange(0, prefix@.len() as int) =~= whole.subrange(
                    i as int,
                    i + prefix@.len(),
                ));
                assert(rest.skip(prefix@.len() as int) =~= whole.skip(i + prefix@.len()));
                let found = leading_uri(rest);
                if found.len() > 0 {
                    assert((seq![found] + later).skip(1) =~= later);
                    assert((seq![found] + later).first() == found);
                } else {
                    assert(Seq::<Seq<char>>::empty() + later =~= later);
                }
            }
            if end > i {
                let candidate = text::from_chars(&chars, i, end);
                push_distinct(&mut output, candidate.as_str());
            }
            i = i + pattern.len();
        } else {
            proof {
                if text::occurs_at(rest, prefix@, 0) {
                    assert(whole.subrange(i as int, i + prefix@.len()) =~= rest.subrange(
                        0,
                        prefix@.len() as int,
                    ));
                }
                assert(rest.skip(1) =~= whole.skip(i + 1));
            }
            i = i + 1;
        }
    }
    assert(whole.skip(i as int) =~= Seq::<char>::empty());
    output
}

/// The texts from the first that is `start` on.
pub open spec fn starting_at(list: Seq<Seq<char>>, start: Seq<char>) -> Seq<Seq<char>>
    decreases list.len(),
{
    if list.len() == 0 || list.first() == start {
        list
    } else {
        starting_at(list.skip(1), start)
    }
}

/// The texts of a list with a separator between two of them.
pub open spec fn joined_by(list: Seq<Seq<char>>, separator: char) -> Seq<char>
    decreases list.len(),
{
    if list.len() == 0 {
        Seq::empty()
    } else if list.len() == 1 {
        list[0]
    } else {
        joined_by(list.drop_last(), separator).push(separator) + list.last()
    }
}

/// The address that the address of a page stands for.
pub open spec fn page_uri(page_url: Seq<char>) -> Seq<char> {
    let rest = if text::occurs_at(page_url, "hm://"@, 0) {
        page_url.skip("hm://"@.len() as int)
    } else {
        page_url
    };
    let parts = starting_at(text::pieces(rest, '/'), "spotify"@);
    joined_by(
        parts.take(
            if parts.len() < 3 {
                parts.len() as int
            } else {
                3
            },
        ),
        ':',
    )
}

/// The address that the address of a page stands for: the part `spotify` of it
/// and the two parts after that.
pub fn page_url_to_uri(page_url: &str) -> (uri: String)
    ensures
        uri@ == page_uri(page_url@),
{
    let chars = text::to_chars(page_url);
    let scheme = text::to_chars("hm://");
    let from: usize = if text::matches_at(&chars, &scheme, 0) {
        scheme.len()
    } else {
        0
    };
    let rest = text::from_chars(&chars, from, chars.len());
    assert(rest@ =~= page_url@.skip(from as int));
    assert(page_url@.skip(0) =~= page_url@);
    let parts = text::split(rest.as_str(), '/');
    let ghost given = text::texts(parts@);
    let mut first: usize = 0;
    assert(given.skip(0) =~= given);
    while first < parts.len() && !text::same_text(parts[first].as_str(), "spotify")
        invariant
            given == text::texts(parts@),
            first <= parts@.len(),
            starting_at(given, "spotify"@) == starting_at(given.skip(first as int), "spotify"@),
        decreases parts@.len() - first,
    {
        assert(given.skip(first as int).skip(1) =~= given.skip(first + 1));
        first = first + 1;
    }
    let ghost kept = given.skip(first as int);
    assert(starting_at(given, "spotify"@) == kept);
    let total: usize = parts.len();
    let count: usize = if total - first < 3 {
        total - first
    } else {
        3
    };
    let mut uri = String::new();
    let mut i: usize = 0;
    assert(kept.take(0) =~= Seq::empty());
    assert(uri@ =~= Seq::empty());
    while i < count
        invariant
            given == text::texts(parts@),
            first + count <= total == parts@.len(),
            kept == given.skip(first as int),
            i <= count,
            uri@ == joined_by(kept.take(i as int), ':'),
        decreases count - i,
    {
        assert(kept.take(i + 1).drop_last() =~= kept.take(i as int));
        assert(kept.take(i + 1).last() == parts@[first + i]@);
        if i > 0 {
            uri.push(':');
        }
        uri.append(parts[first + i].as_str());
        assert(i == 0 ==> uri@ =~= parts@[first + i]@);
        i = i + 1;
    }
    uri
}

/// A page of a context: its address, and the addresses of its tracks as far as
/// they have one.
#[derive(Debug)]
pub struct ContextPage {
    pub page_url: Option<String>,
    pub tracks: Vec<Option<String>>,
}

/// What is played from: its address, and its pages.
#[derive(Debug)]
pub struct Context {
    pub uri: Option<String>,
    pub pages: Vec<ContextPage>,
}

/// The prefix of addresses of a kind of thing.
pub open spec fn kind_prefix(kind: Seq<char>) -> Seq<char> {
    "spotify:"@ + kind + ":"@
}

/// The addresses of a page and of its tracks.
pub open spec fn page_uris(page: ContextPage) -> Set<Seq<char>> {
    Set::new(
        |uri: Seq<char>|
            {
                ||| page.page_url matches Some(url) && uri == page_uri(url@)
                ||| exists|i: int|
                    0 <= i < page.tracks@.len() && (#[trigger] page.tracks@[i] matches Some(track)
                        && track@ == uri)
            },
    )
}

/// The addresses in a context.
pub open spec fn context_uris(context: Context) -> Set<Seq<char>> {
    Set::new(
        |uri: Seq<char>|
            {
                ||| context.uri matches Some(own) && own@ == uri
                ||| exists|i: int|
                    0 <= i < context.pages@.len() && page_uris(
                        #[trigger] context.pages@[i],
                    ).contains(uri)
            },
    )
}

/// Adds an address to an ascending list if it begins with a prefix.
fn insert_with_prefix(uris: &mut Vec<String>, uri: String, prefix: &str)
    requires
        order::ascending(text::texts(old(uris)@)),
    ensures
        order::ascending(text::texts(final(uris)@)),
        forall|x: Seq<char>| #[trigger]
            text::texts(final(uris)@).to_set().contains(x) <==> text::texts(
                old(uris)@,
            ).to_set().contains(x) || (x == uri@ && text::occurs_at(x, prefix@, 0)),
{
    if text::starts_with(uri.as_str(), prefix) {
        order::insert_ascending(uris, uri);
    }
}

/// The addresses of a kind of thing in a context, each once and in ascending
/// order.
pub fn collect_context_uris(context: &Context, kind: &str) -> (uris: Vec<String>)
    ensures
        order::ascending(text::texts(uris@)),
        forall|uri: Seq<char>| #[trigger]
            text::texts(uris@).to_set().contains(uri) <==> context_uris(*context).contains(uri)
                && text::occurs_at(uri, kind_prefix(kind@), 0),
{
    let prefix = text::concat3("spotify:", kind, ":");
    let ghost pre = kind_prefix(kind@);
    let mut uris: Vec<String> = Vec::new();
    assert(text::texts(uris@).to_set() =~= Set::empty());
    if let Some(uri) = &context.uri {
        insert_with_prefix(&mut uris, uri.clone(), prefix.as_str());
    }
    let mut p: usize = 0;
    while p < context.pages.len()
        invariant
            p <= context.pages@.len(),
            prefix@ == pre,
            order::ascending(text::texts(uris@)),
            forall|x: Seq<char>| #[trigger]
                text::texts(uris@).to_set().contains(x) <==> text::occurs_at(x, pre, 0) && ({
                    ||| context.uri matches Some(own) && own@ == x
                    ||| exists|i: int|
                        0 <= i < p && page_uris(#[trigger] context.pages@[i]).contains(x)
                }),
        decreases context.pages@.len() - p,
    {
        let page = &context.pages[p];
        let ghost before = text::texts(uris@).to_set();
        if let Some(page_url) = &page.page_url {
            let uri = page_url_to_uri(page_url.as_str());
            insert_with_prefix(&mut uris, uri, prefix.as_str());
        }
        let mut t: usize = 0;
        while t < page.tracks.len()
            invariant
                t <= page.tracks@.len(),
                prefix@ == pre,
                order::ascending(text::texts(uris@)),
                forall|x: Seq<char>| #[trigger]
                    text::texts(uris@).to_set().contains(x) <==> before.contains(x)
                        || text::occurs_at(x, pre, 0) && ({
                        ||| page.page_url matches Some(url) && x == page_uri(url@)
                        ||| exists|i: int|
                            0 <= i < t && (#[trigger] page.tracks@[i] matches Some(track) && track@
                                == x)
                    }),
            decreases page.tracks@.len() - t,
        {
            let ghost held = text::texts(uris@).to_set();
            if let Some(uri) = &page.tracks[t] {
                insert_with_prefix(&mut uris, uri.clone(), prefix.as_str());
            }
            proof {
                assert forall|x: Seq<char>| #[trigger]
                    text::texts(uris@).to_set().contains(x) <==> before.contains(x)
                        || text::occurs_at(x, pre, 0) && ({
                        ||| page.page_url matches Some(url) && x == page_uri(url@)
                        ||| exists|i: int|
                            0 <= i < t + 1 && (#[trigger] page.tracks@[i] matches Some(track)
                                && track@ == x)
                    }) by {
                    assert(held.contains(x) ==> text::texts(uris@).to_set().contains(x));
                    if exists|i: int|
                        0 <= i < t + 1 && (#[trigger] page.tracks@[i] matches Some(track) && track@
                            == x) {
                        let i = choose|i: int|
                            0 <= i < t + 1 && (#[trigger] page.tracks@[i] matches Some(track)
                                && track@ == x);
                        if i < t {
                            assert(page.tracks@[i] is Some);
                        }
                    }
                    if page.tracks@[t as int] matches Some(track) && track@ == x {
                        assert(page.tracks@[t as int] is Some);
                    }
                }
            }
            t = t + 1;
        }
        proof {
            assert forall|x: Seq<char>| #[trigger]
                text::texts(uris@).to_set().contains(x) <==> text::occurs_at(x, pre, 0) && ({
                    ||| context.uri matches Some(own) && own@ == x
                    ||| exists|i: int|
                        0 <= i < p + 1 && page_uris(#[trigger] context.pages@[i]).contains(x)
                }) by {
                assert(page_uris(context.pages@[p as int]).contains(x) <==> ({
                    ||| page.page_url matches Some(url) && x == page_uri(url@)
                    ||| exists|i: int|
                        0 <= i < page.tracks@.len() && (#[trigger] page.tracks@[i] matches Some(
                            track,
                        ) && track@ == x)
                }));
                if exists|i: int|
                    0 <= i < p + 1 && page_uris(#[trigger] context.pages@[i]).contains(x) {
                    let i = choose|i: int|
                        0 <= i < p + 1 && page_uris(#[trigger] context.pages@[i]).contains(x);
                    if i < p {
                        assert(page_uris(context.pages@[i]).contains(x));
                    }
                }
            }
        }
        p = p + 1;
    }
    uris
}

/// What is kept of a list are its texts that begin with the prefix, in their
/// order.
pub proof fn law_a_prefix_filters_a_list(list: Seq<Seq<char>>, prefix: Seq<char>)
    ensures
        with_prefix(list, prefix) == list.filter(
            |uri: Seq<char>| prefix.is_prefix_of(uri),
        ),
    decreases list.len(),
{
    reveal(Seq::filter);
    if list.len() > 0 {
        law_a_prefix_filters_a_list(list.drop_last(), prefix);
        let uri = list.last();
        if uri.len() >= prefix.len() {
            assert(uri.subrange(0, prefix.len() as int) =~= uri.take(prefix.len() as int));
        }
        assert(text::occurs_at(uri, prefix, 0) <==> prefix.is_prefix_of(uri));
    }
}

/// Texts are listed in the order in which they come first: what is listed of the
/// beginning of a list begins what is listed of the whole.
pub proof fn law_distinct_keeps_the_order(list: Seq<Seq<char>>, n: int)
    requires
        0 <= n <= list.len(),
    ensures
        distinct(list.take(n)).is_prefix_of(distinct(list)),
        distinct(list).len() <= list.len(),
    decreases list.len(),
{
    if list.len() > 0 {
        let rest = list.drop_last();
        if n < list.len() {
            law_distinct_keeps_the_order(rest, n);
            assert(rest.take(n) =~= list.take(n));
            let head = distinct(list.take(n));
            assert(head =~= distinct(rest).take(head.len() as int));
            assert(distinct(rest).take(head.len() as int) =~= distinct(list).take(
                head.len() as int,
            ));
        } else {
            law_distinct_keeps_the_order(rest, n - 1);
            assert(list.take(n) =~= list);
        }
    }
    if n == list.len() {
        assert(list.take(n) =~= list);
        assert(distinct(list) =~= distinct(list).take(distinct(list).len() as int));
    }
}

/// Letters and digits of ASCII, the colon and the underscore can stand in an
/// address that is picked out of a text, and nothing else can.
pub proof fn law_characters_of_addresses(c: char)
    ensures
        is_uri_char(c) <==> {
            let code = c as u32;
            ||| 48 <= code <= 57
            ||| 65 <= code <= 90
            ||| 97 <= code <= 122
            ||| code == 58
            ||| code == 95
        },
{
}

/// What is picked out of a text from a place on is all that can stand in an
/// address, up to the first character that cannot.
pub proof fn law_an_address_goes_as_far_as_it_can(content: Seq<char>)
    ensures
        ({
            let found = leading_uri(content);
            &&& found.is_prefix_of(content)
            &&& forall|k: int| 0 <= k < found.len() ==> is_uri_char(#[trigger] found[k])
            &&& found.len() < content.len() ==> !is_uri_char(content[found.len() as int])
        }),
    decreases content.len(),
{
    if content.len() > 0 && is_uri_char(content.first()) {
        let rest = content.skip(1);
        law_an_address_goes_as_far_as_it_can(rest);
        let tail = leading_uri(rest);
        let found = leading_uri(content);
        assert(found == seq![content.first()] + tail);
        assert forall|k: int| 0 <= k < found.len() implies is_uri_char(#[trigger] found[k]) by {
            if k > 0 {
                assert(found[k] == tail[k - 1]);
            }
        }
        assert(tail =~= rest.take(tail.len() as int));
        assert(found =~= content.take(found.len() as int)) by {
            assert forall|k: int| 0 <= k < found.len() implies found[k] == content[k] by {
                if k > 0 {
                    assert(found[k] == tail[k - 1]);
                    assert(rest.take(tail.len() as int)[k - 1] == content[k]);
                }
            }
        }
        if found.len() < content.len() {
            assert(content[found.len() as int] == rest[tail.len() as int]);
        }
    } else {
        assert(content.take(0) =~= leading_uri(content));
    }
}

/// What is picked out of a text begins with the prefix and stands in the text,
/// and a text in which the prefix stands somewhere has something picked out of
/// it.
pub proof fn law_addresses_are_picked_out_where_the_prefix_stands(
    content: Seq<char>,
    prefix: Seq<char>,
)
    requires
        prefix.len() > 0,
        forall|k: int| 0 <= k < prefix.len() ==> is_uri_char(#[trigger] prefix[k]),
    ensures
        forall|i: int|
            0 <= i < scanned(content, prefix).len() ==> {
                let found = #[trigger] scanned(content, prefix)[i];
                &&& prefix.is_prefix_of(found)
                &&& forall|k: int| 0 <= k < found.len() ==> is_uri_char(#[trigger] found[k])
                &&& exists|at: int|
                    #![trigger content.skip(at)]
                    0 <= at <= content.len() && found == leading_uri(content.skip(at))
            },
        scanned(content, prefix).len() > 0 <==> exists|at: int| #[trigger]
            text::occurs_at(content, prefix, at),
        text::occurs_at(content, prefix, 0) ==> scanned(content, prefix)[0] == leading_uri(content),
    decreases content.len(),
{
    let all = scanned(content, prefix);
    let n = prefix.len() as int;
    if content.len() > 0 {
        if text::occurs_at(content, prefix, 0) {
            let found = leading_uri(content);
            law_an_address_goes_as_far_as_it_can(content);
            assert forall|k: int| 0 <= k < n implies content[k] == #[trigger] prefix[k] by {
                assert(content.subrange(0, n)[k] == prefix[k]);
            }
            if found.len() < n {
                assert(content[found.len() as int] == prefix[found.len() as int]);
            }
            assert(found.len() >= n);
            assert(found =~= content.take(found.len() as int));
            assert(prefix =~= found.take(n)) by {
                assert forall|k: int| 0 <= k < n implies found[k] == #[trigger] prefix[k] by {
                    assert(content.take(found.len() as int)[k] == content[k]);
                }
            }
            let rest = content.skip(n);
            law_addresses_are_picked_out_where_the_prefix_stands(rest, prefix);
            assert(all == seq![found] + scanned(rest, prefix));
            assert forall|i: int| 0 <= i < all.len() implies {
                let one = #[trigger] all[i];
                &&& prefix.is_prefix_of(one)
                &&& forall|k: int| 0 <= k < one.len() ==> is_uri_char(#[trigger] one[k])
                &&& exists|at: int|
                    #![trigger content.skip(at)]
                    0 <= at <= content.len() && one == leading_uri(content.skip(at))
            } by {
                if i == 0 {
                    assert(content.skip(0) =~= content);
                } else {
                    let one = scanned(rest, prefix)[i - 1];
                    assert(all[i] == one);
                    let at = choose|at: int|
                        #![trigger rest.skip(at)]
                        0 <= at <= rest.len() && one == leading_uri(rest.skip(at));
                    assert(rest.skip(at) =~= content.skip(at + n));
                }
            }
        } else {
            let rest = content.skip(1);
            law_addresses_are_picked_out_where_the_prefix_stands(rest, prefix);
            assert forall|i: int| 0 <= i < all.len() implies {
                let one = #[trigger] all[i];
                &&& prefix.is_prefix_of(one)
                &&& forall|k: int| 0 <= k < one.len() ==> is_uri_char(#[trigger] one[k])
                &&& exists|at: int|
                    #![trigger content.skip(at)]
                    0 <= at <= content.len() && one == leading_uri(content.skip(at))
            } by {
                let one = scanned(rest, prefix)[i];
                let at = choose|at: int|
                    #![trigger rest.skip(at)]
                    0 <= at <= rest.len() && one == leading_uri(rest.skip(at));
                assert(rest.skip(at) =~= content.skip(at + 1));
            }
            if exists|at: int| #[trigger] text::occurs_at(content, prefix, at) {
                let at = choose|at: int| #[trigger] text::occurs_at(content, prefix, at);
                assert(rest.subrange(at - 1, at - 1 + n) =~= content.subrange(at, at + n));
                assert(text::occurs_at(rest, prefix, at - 1));
            }
            if exists|at: int| #[trigger] text::occurs_at(rest, prefix, at) {
                let at = choose|at: int| #[trigger] text::occurs_at(rest, prefix, at);
                assert(rest.subrange(at, at + n) =~= content.subrange(at + 1, at + 1 + n));
                assert(text::occurs_at(content, prefix, at + 1));
            }
        }
    }
}

/// A text that was taken apart at a separator is put together again by it.
pub proof fn law_pieces_join_to_the_text(content: Seq<char>, separator: char)
    ensures
        joined_by(text::pieces(content, separator), separator) == content,
    decreases content.len(),
{
    let parts = text::pieces(content, separator);
    if content.len() == 0 {
        assert(parts[0] =~= content);
    } else {
        let rest = content.drop_last();
        law_pieces_join_to_the_text(rest, separator);
        text::lemma_pieces_nonempty(rest, separator);
        let before = text::pieces(rest, separator);
        assert(rest.push(content.last()) =~= content);
        if content.last() == separator {
            assert(parts.drop_last() =~= before);
            assert(parts.last() == Seq::<char>::empty());
            assert(rest.push(separator) + Seq::<char>::empty() =~= content);
        } else {
            assert(parts.drop_last() =~= before.drop_last());
            assert(parts.last() == before.last().push(content.last()));
            if before.len() == 1 {
                assert(parts[0] =~= content);
            } else {
                let head = joined_by(before.drop_last(), separator).push(separator);
                assert(head + before.last().push(content.last()) =~= (head + before.last()).push(
                    content.last(),
                ));
            }
        }
    }
}

/// The parts from one on are the rest of a list from where the part comes first;
/// nothing is left of a list without it.
pub proof fn law_parts_start_where_the_first_one_is(
    list: Seq<Seq<char>>,
    start: Seq<char>,
    at: int,
)
    requires
        0 <= at <= list.len(),
        forall|k: int| 0 <= k < at ==> #[trigger] list[k] != start,
        at < list.len() ==> list[at] == start,
    ensures
        starting_at(list, start) == list.skip(at),
    decreases list.len(),
{
    if at == 0 {
        assert(list.skip(0) =~= list);
    } else {
        assert(list[0] != start);
        let rest = list.skip(1);
        assert forall|k: int| 0 <= k < at - 1 implies #[trigger] rest[k] != start by {
            assert(rest[k] == list[k + 1]);
        }
        law_parts_start_where_the_first_one_is(rest, start, at - 1);
        assert(rest.skip(at - 1) =~= list.skip(at));
    }
}

/// The address that a page stands for is the part `spotify` of its path and the
/// two parts behind that, with colons between them. A scheme before the path
/// changes nothing.
pub proof fn law_a_page_stands_for_an_address(path: Seq<char>, at: int)
    requires
        !text::occurs_at(path, "hm://"@, 0),
        0 <= at && at + 2 < text::pieces(path, '/').len(),
        text::pieces(path, '/')[at] == "spotify"@,
        forall|k: int| 0 <= k < at ==> #[trigger] text::pieces(path, '/')[k] != "spotify"@,
    ensures
        page_uri(path) == "spotify:"@ + text::pieces(path, '/')[at + 1] + ":"@ + text::pieces(
            path,
            '/',
        )[at + 2],
        page_uri("hm://"@ + path) == page_uri(path),
{
    reveal_strlit("hm://");
    reveal_strlit("spotify");
    reveal_strlit("spotify:");
    reveal_strlit(":");
    let whole = "hm://"@ + path;
    assert(whole.subrange(0, 5) =~= "hm://"@);
    assert(whole.skip(5) =~= path);
    let list = text::pieces(path, '/');
    law_parts_start_where_the_first_one_is(list, "spotify"@, at);
    let parts = list.skip(at);
    let three = parts.take(3);
    let two = three.drop_last();
    let one = two.drop_last();
    assert(one.len() == 1 && one[0] == "spotify"@);
    assert(joined_by(one, ':') == "spotify"@);
    assert(two.last() == list[at + 1]);
    assert(three.last() == list[at + 2]);
    assert("spotify"@.push(':') =~= "spotify:"@);
    assert(joined_by(two, ':') == "spotify:"@ + list[at + 1]);
    assert((("spotify:"@ + list[at + 1]).push(':')) =~= "spotify:"@ + list[at + 1] + ":"@);
}

/// The addresses in a context are its own, those that its pages stand for and
/// those of their tracks, and no others.
pub proof fn law_a_context_lists_what_is_in_it(context: Context, uri: Seq<char>)
    ensures
        context_uris(context).contains(uri) <==> {
            ||| context.uri is Some && context.uri->Some_0@ == uri
            ||| exists|p: int|
                0 <= p < context.pages@.len() && (#[trigger] context.pages@[p]).page_url is Some
                    && page_uri(context.pages@[p].page_url->Some_0@) == uri
            ||| exists|p: int, t: int|
                0 <= p < context.pages@.len() && 0 <= t < context.pages@[p].tracks@.len() && (
                #[trigger] context.pages@[p].tracks@[t]) is Some
                    && context.pages@[p].tracks@[t]->Some_0@ == uri
        },
{
    if context_uris(context).contains(uri) && !(context.uri is Some && context.uri->Some_0@
        == uri) {
        let p = choose|i: int|
            0 <= i < context.pages@.len() && page_uris(#[trigger] context.pages@[i]).contains(uri);
        let page = context.pages@[p];
        if !(page.page_url is Some && page_uri(page.page_url->Some_0@) == uri) {
            let t = choose|i: int|
                0 <= i < page.tracks@.len() && (#[trigger] page.tracks@[i] matches Some(track)
                    && track@ == uri);
            assert(context.pages@[p].tracks@[t] is Some);
        }
    }
    if exists|p: int|
        0 <= p < context.pages@.len() && (#[trigger] context.pages@[p]).page_url is Some
            && page_uri(context.pages@[p].page_url->Some_0@) == uri {
        let p = choose|p: int|
            0 <= p < context.pages@.len() && (#[trigger] context.pages@[p]).page_url is Some
                && page_uri(context.pages@[p].page_url->Some_0@) == uri;
        assert(page_uris(context.pages@[p]).contains(uri));
    }
    if exists|p: int, t: int|
        0 <= p < context.pages@.len() && 0 <= t < context.pages@[p].tracks@.len() && (
        #[trigger] context.pages@[p].tracks@[t]) is Some && context.pages@[p].tracks@[t]->Some_0@
            == uri {
        let (p, t) = choose|p: int, t: int|
            0 <= p < context.pages@.len() && 0 <= t < context.pages@[p].tracks@.len() && (
            #[trigger] context.pages@[p].tracks@[t]) is Some
                && context.pages@[p].tracks@[t]->Some_0@ == uri;
        assert(context.pages@[p].tracks@[t] is Some);
        assert(page_uris(context.pages@[p]).contains(uri));
    }
}

/// An address of a kind begins with the name of the service and of the kind.
pub proof fn law_addresses_name_their_kind(kind: Seq<char>, id: Seq<char>)
    ensures
        text::occurs_at("spotify:"@ + kind + ":"@ + id, kind_prefix(kind), 0),
        kind_prefix(kind).len() == kind.len() + 9,
{
    reveal_strlit("spotify:");
    reveal_strlit(":");
    let whole = "spotify:"@ + kind + ":"@ + id;
    assert(whole.subrange(0, kind_prefix(kind).len() as int) =~= kind_prefix(kind));
}

/// Texts are joined in their order with one separator between two of them: a list
/// that goes on after another one is joined behind it.
pub proof fn law_texts_are_joined_in_order(
    list: Seq<Seq<char>>,
    more: Seq<Seq<char>>,
    separator: char,
)
    ensures
        joined_by(Seq::empty(), separator).len() == 0,
        list.len() == 1 ==> joined_by(list, separator) == list[0],
        list.len() > 0 && more.len() > 0 ==> joined_by(list + more, separator) == joined_by(
            list,
            separator,
        ) + seq![separator] + joined_by(more, separator),
    decreases more.len(),
{
    if list.len() > 0 && more.len() > 0 {
        let all = list + more;
        assert(all.last() == more.last());
        if more.len() == 1 {
            assert(all.drop_last() =~= list);
        } else {
            law_texts_are_joined_in_order(list, more.drop_last(), separator);
            assert(all.drop_last() =~= list + more.drop_last());
        }
        assert(joined_by(all, separator) =~= joined_by(list, separator) + seq![separator]
            + joined_by(more, separator));
    }
}

} // verus!
