//! Text as a sequence of characters: the operations that the other modules
//! build their messages, paths and identifiers with.
use vstd::prelude::*;

verus! {

/// `std::string::String::push` appends the given character to the end of the
/// string.
pub assume_specification[ String::push ](string: &mut String, c: char)
    ensures
        final(string)@ == old(string)@.push(c),
;

/// The characters of `text`, one by one.
pub fn to_chars(text: &str) -> (chars: Vec<char>)
    ensures
        chars@ == text@,
{
    let mut chars: Vec<char> = Vec::new();
    for c in it: text.chars()
        invariant
            it.seq() == text@,
            chars@ == text@.take(it.index()),
    {
        chars.push(c);
    }
    chars
}

/// The text made of the characters `chars[from..to]`.
pub fn from_chars(chars: &Vec<char>, from: usize, to: usize) -> (text: String)
    requires
        from <= to <= chars@.len(),
    ensures
        text@ == chars@.subrange(from as int, to as int),
{
    let mut text = String::new();
    let mut i: usize = from;
    while i < to
        invariant
            from <= i <= to <= chars@.len(),
            text@ == chars@.subrange(from as int, i as int),
        decreases to - i,
    {
        text.push(chars[i]);
        i = i + 1;
        assert(text@ =~= chars@.subrange(from as int, i as int));
    }
    text
}

/// `first` followed by `second`.
pub fn concat(first: &str, second: &str) -> (text: String)
    ensures
        text@ == first@ + second@,
{
    let mut text = first.to_owned();
    text.append(second);
    text
}

/// `first`, `second` and `third` in a row.
pub fn concat3(first: &str, second: &str, third: &str) -> (text: String)
    ensures
        text@ == first@ + second@ + third@,
{
    let mut text = first.to_owned();
    text.append(second);
    text.append(third);
    text
}

/// Whether two texts have the same characters.
pub fn same_text(a: &str, b: &str) -> (same: bool)
    ensures
        same == (a@ == b@),
{
    a.to_owned() == b.to_owned()
}

/// Whether a text has no characters.
pub fn is_empty(text: &str) -> (empty: bool)
    ensures
        empty == (text@.len() == 0),
{
    proof {
        reveal_strlit("");
        assert(text@.len() == 0 ==> text@ =~= ""@);
    }
    same_text(text, "")
}

/// Whether `pattern` stands in `text` at position `at`.
pub open spec fn occurs_at(text: Seq<char>, pattern: Seq<char>, at: int) -> bool {
    &&& 0 <= at
    &&& at + pattern.len() <= text.len()
    &&& text.subrange(at, at + pattern.len()) == pattern
}

/// Tests for `pattern` at position `at`.
pub fn matches_at(text: &Vec<char>, pattern: &Vec<char>, at: usize) -> (found: bool)
    requires
        at <= text@.len(),
    ensures
        found == occurs_at(text@, pattern@, at as int),
{
    let length: usize = text.len();
    if pattern.len() > length - at {
        return false;
    }
    let mut i: usize = 0;
    while i < pattern.len()
        invariant
            length == text@.len(),
            at <= length,
            i <= pattern@.len() <= length - at,
            forall|k: int| 0 <= k < i ==> text@[at + k] == pattern@[k],
        decreases pattern@.len() - i,
    {
        if text[at + i] != pattern[i] {
            assert(text@.subrange(at as int, at + pattern@.len())[i as int] != pattern@[i as int]);
            return false;
        }
        i = i + 1;
    }
    assert(text@.subrange(at as int, at + pattern@.len()) =~= pattern@);
    true
}

/// Whether `text` begins with `prefix`.
pub fn starts_with(text: &str, prefix: &str) -> (yes: bool)
    ensures
        yes == occurs_at(text@, prefix@, 0),
{
    matches_at(&to_chars(text), &to_chars(prefix), 0)
}

/// The first position from `from` on at which `pattern` stands in `text`.
pub fn find_from(text: &Vec<char>, pattern: &Vec<char>, from: usize) -> (found: Option<usize>)
    requires
        from <= text@.len(),
    ensures
        match found {
            Some(at) => {
                &&& from <= at
                &&& occurs_at(text@, pattern@, at as int)
                &&& forall|k: int| from <= k < at ==> !occurs_at(text@, pattern@, k)
            },
            None => forall|k: int| from <= k ==> !occurs_at(text@, pattern@, k),
        },
{
    let mut at: usize = from;
    while at < text.len()
        invariant
            from <= at <= text@.len(),
            forall|k: int| from <= k < at ==> !occurs_at(text@, pattern@, k),
        decreases text@.len() - at,
    {
        if matches_at(text, pattern, at) {
            return Some(at);
        }
        at = at + 1;
    }
    if matches_at(text, pattern, at) {
        return Some(at);
    }
    None
}

/// Whether `c` is one of the characters of `text`.
pub fn has_char(text: &str, c: char) -> (found: bool)
    ensures
        found == text@.contains(c),
{
    let chars = to_chars(text);
    let mut i: usize = 0;
    while i < chars.len()
        invariant
            i <= chars@.len(),
            chars@ == text@,
            forall|k: int| 0 <= k < i ==> chars@[k] != c,
        decreases chars@.len() - i,
    {
        if chars[i] == c {
            assert(text@[i as int] == c);
            return true;
        }
        i = i + 1;
    }
    false
}

/// `text` with every occurrence of `pattern`, from left to right and without
/// overlap, replaced by `with`.
pub open spec fn replaced(text: Seq<char>, pattern: Seq<char>, with: Seq<char>) -> Seq<char>
    decreases text.len(),
{
    if text.len() == 0 {
        Seq::empty()
    } else if pattern.len() > 0 && occurs_at(text, pattern, 0) {
        with + replaced(text.skip(pattern.len() as int), pattern, with)
    } else {
        seq![text[0]] + replaced(text.skip(1), pattern, with)
    }
}

/// Replaces every occurrence of a pattern.
pub fn replace(text: &str, pattern: &str, with: &str) -> (result: String)
    requires
        pattern@.len() > 0,
    ensures
        result@ == replaced(text@, pattern@, with@),
{
    let chars = to_chars(text);
    let pattern_chars = to_chars(pattern);
    let mut result = String::new();
    let mut i: usize = 0;
    assert(text@.skip(0) =~= text@);
    while i < chars.len()
        invariant
            chars@ == text@,
            pattern_chars@ == pattern@,
            pattern@.len() > 0,
            i <= chars@.len(),
            result@ + replaced(text@.skip(i as int), pattern@, with@) == replaced(
                text@,
                pattern@,
                with@,
            ),
        decreases chars@.len() - i,
    {
        let ghost rest = text@.skip(i as int);
        let ghost before = result@;
        if matches_at(&chars, &pattern_chars, i) {
            proof {
                assert(rest.subrange(0, pattern@.len() as int) =~= text@.subrange(
                    i as int,
                    i + pattern@.len(),
                ));
                assert(rest.skip(pattern@.len() as int) =~= text@.skip(i + pattern@.len()));
            }
            result.append(with);
            i = i + pattern_chars.len();
            assert(result@ + replaced(text@.skip(i as int), pattern@, with@) =~= before + replaced(
                rest,
                pattern@,
                with@,
            ));
        } else {
            proof {
                if occurs_at(rest, pattern@, 0) {
                    assert(text@.subrange(i as int, i + pattern@.len()) =~= rest.subrange(
                        0,
                        pattern@.len() as int,
                    ));
                }
                assert(rest.skip(1) =~= text@.skip(i + 1));
            }
            result.push(chars[i]);
            i = i + 1;
            assert(result@ + replaced(text@.skip(i as int), pattern@, with@) =~= before + replaced(
                rest,
                pattern@,
                with@,
            ));
        }
    }
    assert(text@.skip(i as int) =~= Seq::<char>::empty());
    assert(result@ + Seq::<char>::empty() =~= result@);
    result
}

/// A text that a C string can hold: `text` itself, or nothing if it has a NUL.
pub open spec fn c_text(text: Seq<char>) -> Seq<char> {
    if text.contains('\0') {
        Seq::empty()
    } else {
        text
    }
}

/// The text that is handed out for `text` where a C string is expected.
pub fn to_c_text(text: &str) -> (result: String)
    ensures
        result@ == c_text(text@),
        !result@.contains('\0'),
{
    if has_char(text, '\0') {
        String::new()
    } else {
        text.to_owned()
    }
}

/// The decimal digit for `digit`.
pub open spec fn digit_char(digit: nat) -> char {
    (48 + digit) as u32 as char
}

fn digit(value: u64) -> (c: char)
    requires
        value < 10,
    ensures
        c == digit_char(value as nat),
{
    match value {
        0 => '0',
        1 => '1',
        2 => '2',
        3 => '3',
        4 => '4',
        5 => '5',
        6 => '6',
        7 => '7',
        8 => '8',
        _ => '9',
    }
}

/// `value` in decimal, without leading zeros.
pub open spec fn decimal(value: nat) -> Seq<char>
    decreases value,
{
    if value < 10 {
        seq![digit_char(value)]
    } else {
        decimal(value / 10).push(digit_char(value % 10))
    }
}

/// `value` in decimal.
pub fn to_decimal(value: u64) -> (text: String)
    ensures
        text@ == decimal(value as nat),
    decreases value,
{
    if value < 10 {
        let mut text = String::new();
        text.push(digit(value));
        assert(text@ =~= decimal(value as nat));
        text
    } else {
        let mut text = to_decimal(value / 10);
        text.push(digit(value % 10));
        text
    }
}

/// `value` in decimal, filled up with zeros on the left to `width` characters.
pub open spec fn padded_decimal(value: nat, width: nat) -> Seq<char> {
    let digits = decimal(value);
    if digits.len() < width {
        Seq::new((width - digits.len()) as nat, |i: int| '0') + digits
    } else {
        digits
    }
}

/// `value` in decimal with at least `width` digits.
pub fn to_padded_decimal(value: u64, width: usize) -> (text: String)
    ensures
        text@ == padded_decimal(value as nat, width as nat),
{
    let digits = to_decimal(value);
    let length = to_chars(digits.as_str()).len();
    let mut text = String::new();
    let mut filled: usize = length;
    while filled < width
        invariant
            length == decimal(value as nat).len(),
            length <= filled,
            filled <= width || filled == length,
            text@ == Seq::new((filled - length) as nat, |i: int| '0'),
        decreases width - filled,
    {
        text.push('0');
        filled = filled + 1;
        assert(text@ =~= Seq::new((filled - length) as nat, |i: int| '0'));
    }
    text.append(digits.as_str());
    assert(text@ =~= padded_decimal(value as nat, width as nat));
    text
}

/// The value of a decimal digit.
pub open spec fn digit_value(c: char) -> Option<nat> {
    if '0' <= c <= '9' {
        Some((c as u32 - 48) as nat)
    } else {
        None
    }
}

/// The number that a text of decimal digits stands for; nothing if the text is
/// empty or holds anything else.
pub open spec fn number_of(text: Seq<char>) -> Option<nat>
    decreases text.len(),
{
    if text.len() == 0 {
        None
    } else if digit_value(text.last()) is None {
        None
    } else if text.len() == 1 {
        digit_value(text[0])
    } else {
        match number_of(text.drop_last()) {
            Some(head) => Some(10 * head + digit_value(text.last())->0),
            None => None,
        }
    }
}

/// What a decimal number that may carry a plus sign stands for, if that is at
/// most `max`.
pub open spec fn unsigned_number(text: Seq<char>, max: nat) -> Option<nat> {
    let digits = if text.len() > 0 && text[0] == '+' {
        text.skip(1)
    } else {
        text
    };
    match number_of(digits) {
        Some(value) => if value <= max {
            Some(value)
        } else {
            None
        },
        None => None,
    }
}

proof fn lemma_number_prefix(text: Seq<char>, upto: int)
    requires
        1 <= upto <= text.len(),
        number_of(text) is Some,
    ensures
        number_of(text.take(upto)) is Some,
        number_of(text.take(upto))->0 <= number_of(text)->0,
    decreases text.len(),
{
    if upto < text.len() {
        lemma_number_prefix(text.drop_last(), upto);
        assert(text.drop_last().take(upto) =~= text.take(upto));
    } else {
        assert(text.take(upto) =~= text);
    }
}

proof fn lemma_number_step(digits: Seq<char>, upto: int)
    requires
        0 <= upto < digits.len(),
    ensures
        number_of(digits.take(upto + 1)) == match digit_value(digits[upto]) {
            Some(d) => if upto == 0 {
                Some(d)
            } else {
                match number_of(digits.take(upto)) {
                    Some(head) => Some(10 * head + d),
                    None => None,
                }
            },
            None => None,
        },
{
    assert(digits.take(upto + 1).drop_last() =~= digits.take(upto));
}

/// Reads a number that is at most `max`.
pub fn parse_unsigned(text: &str, max: u64) -> (value: Option<u64>)
    ensures
        match unsigned_number(text@, max as nat) {
            Some(n) => value == Some(n as u64),
            None => value is None,
        },
{
    let chars = to_chars(text);
    let mut start: usize = 0;
    if chars.len() > 0 && chars[0] == '+' {
        start = 1;
    }
    let ghost digits = if start == 1 {
        text@.skip(1)
    } else {
        text@
    };
    if chars.len() == start {
        return None;
    }
    let mut value: u64 = 0;
    let mut i: usize = start;
    while i < chars.len()
        invariant
            start <= i <= chars@.len(),
            digits.len() == chars@.len() - start,
            forall|k: int| start <= k < chars@.len() ==> chars@[k] == #[trigger] digits[k - start],
            i > start ==> number_of(digits.take(i - start)) == Some(value as nat),
            i == start ==> value == 0,
            value <= max,
            unsigned_number(text@, max as nat) == match number_of(digits) {
                Some(n) => if n <= max {
                    Some(n)
                } else {
                    None
                },
                None => None,
            },
        decreases chars@.len() - i,
    {
        let c = chars[i];
        proof {
            assert(digits[i - start] == c);
            lemma_number_step(digits, i - start);
            if number_of(digits) is Some {
                lemma_number_prefix(digits, i + 1 - start);
            }
        }
        if c < '0' || c > '9' {
            return None;
        }
        let next: u64 = (c as u32 - 48) as u64;
        if next > max || value > (max - next) / 10 {
            return None;
        }
        value = value * 10 + next;
        i = i + 1;
    }
    assert(digits.take(i - start) =~= digits);
    Some(value)
}

proof fn lemma_decimal_number(value: nat)
    ensures
        number_of(decimal(value)) == Some(value),
        decimal(value).len() > 0,
        '0' <= decimal(value)[0] <= '9',
    decreases value,
{
    if value >= 10 {
        lemma_decimal_number(value / 10);
        assert(decimal(value).drop_last() =~= decimal(value / 10));
    }
}

/// Reading back a number that was written in decimal gives the number.
pub proof fn law_decimal_round_trip(value: nat, max: nat)
    requires
        value <= max,
    ensures
        unsigned_number(decimal(value), max) == Some(value),
{
    lemma_decimal_number(value);
}

/// The upper case hexadecimal digit for `digit`.
pub open spec fn upper_hex_char(digit: nat) -> char {
    if digit < 10 {
        (48 + digit) as u32 as char
    } else {
        (55 + digit) as u32 as char
    }
}

/// `value` as `width` upper case hexadecimal digits.
pub open spec fn upper_hex(value: nat, width: nat) -> Seq<char>
    decreases width,
{
    if width == 0 {
        Seq::empty()
    } else {
        upper_hex(value / 16, (width - 1) as nat).push(upper_hex_char(value % 16))
    }
}

fn upper_hex_digit(value: u32) -> (c: char)
    requires
        value < 16,
    ensures
        c == upper_hex_char(value as nat),
{
    match value {
        10 => 'A',
        11 => 'B',
        12 => 'C',
        13 => 'D',
        14 => 'E',
        15 => 'F',
        _ => digit(value as u64),
    }
}

/// `value` as `width` upper case hexadecimal digits.
pub fn to_upper_hex(value: u32, width: usize) -> (text: String)
    ensures
        text@ == upper_hex(value as nat, width as nat),
    decreases width,
{
    if width == 0 {
        String::new()
    } else {
        let mut text = to_upper_hex(value / 16, width - 1);
        text.push(upper_hex_digit(value % 16));
        text
    }
}

/// Whether a character is white space.
pub open spec fn is_space(c: char) -> bool {
    ||| '\u{9}' <= c <= '\u{d}'
    ||| c == ' '
    ||| c == '\u{85}'
    ||| c == '\u{a0}'
    ||| c == '\u{1680}'
    ||| '\u{2000}' <= c <= '\u{200a}'
    ||| c == '\u{2028}'
    ||| c == '\u{2029}'
    ||| c == '\u{202f}'
    ||| c == '\u{205f}'
    ||| c == '\u{3000}'
}

/// Whether a character is white space.
pub fn is_whitespace(c: char) -> (space: bool)
    ensures
        space == is_space(c),
{
    ('\u{9}' <= c && c <= '\u{d}') || c == ' ' || c == '\u{85}' || c == '\u{a0}' || c == '\u{1680}'
        || ('\u{2000}' <= c && c <= '\u{200a}') || c == '\u{2028}' || c == '\u{2029}' || c
        == '\u{202f}' || c == '\u{205f}' || c == '\u{3000}'
}

/// A text without the white space before it.
pub open spec fn trimmed_start(text: Seq<char>) -> Seq<char>
    decreases text.len(),
{
    if text.len() > 0 && is_space(text.first()) {
        trimmed_start(text.skip(1))
    } else {
        text
    }
}

/// A text without the white space after it.
pub open spec fn trimmed_end(text: Seq<char>) -> Seq<char>
    decreases text.len(),
{
    if text.len() > 0 && is_space(text.last()) {
        trimmed_end(text.drop_last())
    } else {
        text
    }
}

/// A text without the white space around it.
pub open spec fn trimmed(text: Seq<char>) -> Seq<char> {
    trimmed_end(trimmed_start(text))
}

/// A text without the white space around it.
pub fn trim(text: &str) -> (result: String)
    ensures
        result@ == trimmed(text@),
{
    let chars = to_chars(text);
    let mut from: usize = 0;
    assert(text@.skip(0) =~= text@);
    while from < chars.len() && is_whitespace(chars[from])
        invariant
            chars@ == text@,
            from <= chars@.len(),
            trimmed_start(text@) == trimmed_start(text@.skip(from as int)),
        decreases chars@.len() - from,
    {
        assert(text@.skip(from as int).skip(1) =~= text@.skip(from + 1));
        from = from + 1;
    }
    let mut to: usize = chars.len();
    assert(text@.subrange(from as int, to as int) =~= text@.skip(from as int));
    while to > from && is_whitespace(chars[to - 1])
        invariant
            chars@ == text@,
            from <= to <= chars@.len(),
            trimmed(text@) == trimmed_end(text@.subrange(from as int, to as int)),
        decreases to,
    {
        assert(text@.subrange(from as int, to as int).drop_last() =~= text@.subrange(
            from as int,
            to - 1,
        ));
        to = to - 1;
    }
    from_chars(&chars, from, to)
}

/// The pieces of a text between the places where `separator` stands.
pub open spec fn pieces(text: Seq<char>, separator: char) -> Seq<Seq<char>>
    decreases text.len(),
{
    if text.len() == 0 {
        seq![Seq::empty()]
    } else {
        let before = pieces(text.drop_last(), separator);
        if text.last() == separator {
            before.push(Seq::empty())
        } else {
            before.drop_last().push(before.last().push(text.last()))
        }
    }
}

/// The texts of a list of strings.
pub open spec fn texts(strings: Seq<String>) -> Seq<Seq<char>> {
    Seq::new(strings.len(), |i: int| strings[i]@)
}

/// There is at least one piece.
pub proof fn lemma_pieces_nonempty(text: Seq<char>, separator: char)
    ensures
        pieces(text, separator).len() > 0,
    decreases text.len(),
{
    if text.len() > 0 {
        lemma_pieces_nonempty(text.drop_last(), separator);
    }
}

/// The pieces of a text between the places where `separator` stands.
pub fn split(text: &str, separator: char) -> (result: Vec<String>)
    ensures
        texts(result@) == pieces(text@, separator),
{
    let chars = to_chars(text);
    let mut done: Vec<String> = Vec::new();
    let mut current = String::new();
    let mut i: usize = 0;
    assert(texts(done@).push(current@) =~= seq![Seq::<char>::empty()]);
    assert(text@.take(0) =~= Seq::empty());
    while i < chars.len()
        invariant
            chars@ == text@,
            i <= chars@.len(),
            texts(done@).push(current@) == pieces(text@.take(i as int), separator),
        decreases chars@.len() - i,
    {
        let c = chars[i];
        let ghost before = texts(done@);
        let ghost part = current@;
        assert(text@.take(i + 1).drop_last() =~= text@.take(i as int));
        assert(text@.take(i + 1).last() == c);
        assert(before.push(part).drop_last() =~= before);
        if c == separator {
            let mut piece = String::new();
            std::mem::swap(&mut piece, &mut current);
            done.push(piece);
            assert(texts(done@) =~= before.push(part));
            assert(current@ =~= Seq::<char>::empty());
        } else {
            current.push(c);
        }
        i = i + 1;
    }
    assert(text@.take(chars@.len() as int) =~= text@);
    let ghost before = texts(done@);
    let ghost last = current@;
    done.push(current);
    assert(texts(done@) =~= before.push(last));
    done
}

/// Whether a result is the error with the given message.
pub open spec fn fails_with<T>(result: Result<T, String>, message: Seq<char>) -> bool {
    match result {
        Ok(_) => false,
        Err(text) => text@ == message,
    }
}

/// Whether a text can be handed to C: it holds no NUL.
pub open spec fn has_no_nul(text: Seq<char>) -> bool {
    forall|k: int| 0 <= k < text.len() ==> #[trigger] text[k] != '\0'
}

/// A text that is put together from texts without a NUL has none.
pub proof fn lemma_no_nul_add(a: Seq<char>, b: Seq<char>)
    requires
        has_no_nul(a),
        has_no_nul(b),
    ensures
        has_no_nul(a + b),
{
    assert forall|k: int| 0 <= k < (a + b).len() implies #[trigger] (a + b)[k] != '\0' by {
        if k < a.len() {
            assert((a + b)[k] == a[k]);
        } else {
            assert((a + b)[k] == b[k - a.len()]);
        }
    }
}

/// Decimal digits hold no NUL.
pub proof fn lemma_no_nul_decimal(value: nat)
    ensures
        has_no_nul(decimal(value)),
        decimal(value).len() > 0,
    decreases value,
{
    if value >= 10 {
        lemma_no_nul_decimal(value / 10);
        lemma_no_nul_add(decimal(value / 10), seq![digit_char(value % 10)]);
        assert(decimal(value) =~= decimal(value / 10) + seq![digit_char(value % 10)]);
    }
}

/// Hexadecimal digits hold no NUL.
pub proof fn lemma_no_nul_hex(value: nat, width: nat)
    ensures
        has_no_nul(upper_hex(value, width)),
    decreases width,
{
    if width > 0 {
        lemma_no_nul_hex(value / 16, (width - 1) as nat);
    }
}

/// Replacing a character replaces it everywhere and nothing else: it goes through
/// a text part by part, puts the new text in the place of the character, and
/// leaves a text without the character as it is.
pub proof fn law_replacing_a_character(a: Seq<char>, b: Seq<char>, c: char, with: Seq<char>)
    ensures
        replaced(a + b, seq![c], with) == replaced(a, seq![c], with) + replaced(b, seq![c], with),
        replaced(seq![c], seq![c], with) == with,
        !a.contains(c) ==> replaced(a, seq![c], with) == a,
    decreases a.len(),
{
    let pattern = seq![c];
    let one = seq![c];
    assert(one.subrange(0, 1) =~= pattern);
    assert(one.skip(1) =~= Seq::empty());
    assert(with + replaced(one.skip(1), pattern, with) =~= with);
    if a.len() == 0 {
        assert(a + b =~= b);
        assert(Seq::<char>::empty() + replaced(b, pattern, with) =~= replaced(b, pattern, with));
    } else {
        law_replacing_a_character(a.skip(1), b, c, with);
        assert((a + b).skip(1) =~= a.skip(1) + b);
        assert((a + b)[0] == a[0]);
        assert((a + b).subrange(0, 1) =~= seq![a[0]]);
        assert(a.subrange(0, 1) =~= seq![a[0]]);
        assert(seq![a[0]][0] == a[0] && pattern[0] == c);
        let rest = replaced(a.skip(1), pattern, with);
        let more = replaced(b, pattern, with);
        if a[0] == c {
            assert(with + (rest + more) =~= (with + rest) + more);
        } else {
            assert(seq![a[0]] + (rest + more) =~= (seq![a[0]] + rest) + more);
        }
        if !a.contains(c) {
            assert(a[0] != c);
            assert forall|k: int| 0 <= k < a.skip(1).len() implies a.skip(1)[k] != c by {
                assert(a[k + 1] != c);
            }
            assert(!a.skip(1).contains(c));
            assert(seq![a[0]] + a.skip(1) =~= a);
        }
    }
}

/// A number is written in decimal digits, without a nought before it.
pub proof fn law_decimal_form(value: nat)
    ensures
        decimal(value).len() > 0,
        forall|k: int|
            0 <= k < decimal(value).len() ==> '0' <= #[trigger] decimal(value)[k] <= '9',
        decimal(value).len() > 1 ==> decimal(value)[0] != '0',
        decimal(value).len() == 1 <==> value < 10,
        value < 10 ==> decimal(value)[0] as u32 - '0' as u32 == value,
        decimal(value).last() as u32 - '0' as u32 == value % 10,
        value >= 10 ==> decimal(value).drop_last() == decimal(value / 10),
    decreases value,
{
    if value >= 10 {
        law_decimal_form(value / 10);
        assert(decimal(value).drop_last() =~= decimal(value / 10));
        assert forall|k: int| 0 <= k < decimal(value).len() implies '0' <= #[trigger] decimal(
            value,
        )[k] <= '9' by {
            if k < decimal(value).len() - 1 {
                assert(decimal(value)[k] == decimal(value / 10)[k]);
            }
        }
        assert(decimal(value)[0] == decimal(value / 10)[0]);
        if value / 10 < 10 {
            assert(decimal(value / 10)[0] as u32 - '0' as u32 == value / 10);
        }
    }
}

/// A number that is padded has its digits behind as many noughts as are missing.
pub proof fn law_padding_puts_noughts_before(value: nat, width: nat)
    ensures
        ({
            let padded = padded_decimal(value, width);
            let digits = decimal(value);
            &&& padded.len() >= width
            &&& padded.len() >= digits.len()
            &&& padded.len() == width || padded.len() == digits.len()
            &&& padded.skip(padded.len() - digits.len()) == digits
            &&& forall|k: int|
                0 <= k < padded.len() - digits.len() ==> #[trigger] padded[k] == '0'
        }),
{
    let padded = padded_decimal(value, width);
    let digits = decimal(value);
    assert(padded.skip(padded.len() - digits.len()) =~= digits);
}

/// A sign before a number changes nothing, a number that is too large is none,
/// and so is a text without digits or with anything else.
pub proof fn law_numbers_are_read_within_their_limit(value: nat, max: nat, content: Seq<char>)
    ensures
        unsigned_number(decimal(value), max) == if value <= max {
            Some(value)
        } else {
            None
        },
        unsigned_number(seq!['+'] + decimal(value), max) == unsigned_number(decimal(value), max),
        unsigned_number(content, max) matches Some(read) ==> read <= max,
        content.len() == 0 ==> unsigned_number(content, max) is None,
        forall|k: int|
            0 < k < content.len() && !('0' <= #[trigger] content[k] <= '9') ==> unsigned_number(
                content,
                max,
            ) is None,
{
    law_decimal_form(value);
    law_decimal_round_trip(value, value);
    let signed = seq!['+'] + decimal(value);
    assert(signed.skip(1) =~= decimal(value));
    assert(signed[0] == '+');
    assert(decimal(value)[0] != '+');
    assert(unsigned_number(decimal(value), value) == Some(value));
    assert forall|k: int| 0 < k < content.len() && !('0' <= #[trigger] content[k]
        <= '9') implies unsigned_number(content, max) is None by {
        lemma_not_a_number(content, k);
        if content[0] == '+' {
            assert(content.skip(1)[k - 1] == content[k]);
            lemma_not_a_number(content.skip(1), k - 1);
        }
    }
}

/// A text with anything but digits is no number.
proof fn lemma_not_a_number(content: Seq<char>, at: int)
    requires
        0 <= at < content.len(),
        !('0' <= content[at] <= '9'),
    ensures
        number_of(content) is None,
    decreases content.len(),
{
    if at < content.len() - 1 {
        assert(content.drop_last()[at] == content[at]);
        lemma_not_a_number(content.drop_last(), at);
    }
}

/// The number that upper case hexadecimal digits stand for.
pub open spec fn hex_number(digits: Seq<char>) -> nat
    decreases digits.len(),
{
    if digits.len() == 0 {
        0
    } else {
        let last = digits.last();
        let value = if '0' <= last <= '9' {
            (last as u32 - '0' as u32) as nat
        } else {
            (last as u32 - 'A' as u32 + 10) as nat
        };
        16 * hex_number(digits.drop_last()) + value
    }
}

/// A number in hexadecimal digits has as many digits as it is given and reads
/// back, if it fits.
pub proof fn law_upper_hex_round_trip(value: nat, width: nat)
    ensures
        upper_hex(value, width).len() == width,
        forall|k: int|
            0 <= k < width ==> {
                let c = #[trigger] upper_hex(value, width)[k];
                '0' <= c <= '9' || 'A' <= c <= 'F'
            },
        value < vstd::arithmetic::power::pow(16, width) ==> hex_number(upper_hex(value, width))
            == value,
    decreases width,
{
    vstd::arithmetic::power::lemma_pow0(16);
    if width > 0 {
        let less = (width - 1) as nat;
        law_upper_hex_round_trip(value / 16, less);
        let digits = upper_hex(value, width);
        assert(digits.drop_last() =~= upper_hex(value / 16, less));
        assert forall|k: int| 0 <= k < width implies {
            let c = #[trigger] digits[k];
            '0' <= c <= '9' || 'A' <= c <= 'F'
        } by {
            if k < width - 1 {
                assert(digits[k] == upper_hex(value / 16, less)[k]);
            }
        }
        reveal(vstd::arithmetic::power::pow);
        assert(vstd::arithmetic::power::pow(16, width) == 16 * vstd::arithmetic::power::pow(
            16,
            less,
        ));
    }
}

/// The characters that count as white space.
pub proof fn law_white_space(c: char)
    ensures
        is_space(c) <==> {
            let code = c as u32;
            ||| 9 <= code <= 13
            ||| code == 0x20 || code == 0x85 || code == 0xa0 || code == 0x1680
            ||| 0x2000 <= code <= 0x200a
            ||| code == 0x2028 || code == 0x2029 || code == 0x202f || code == 0x205f
            ||| code == 0x3000
        },
{
}

/// What is left of a text without the white space around it neither begins nor
/// ends with white space, and only white space was taken off.
pub proof fn law_trimming_takes_white_space_off_the_ends(content: Seq<char>) -> (from: int)
    ensures
        ({
            let rest = trimmed(content);
            &&& rest.len() > 0 ==> !is_space(rest.first()) && !is_space(rest.last())
            &&& 0 <= from <= from + rest.len() <= content.len()
            &&& content.subrange(from, from + rest.len()) == rest
            &&& forall|k: int| 0 <= k < from ==> is_space(#[trigger] content[k])
            &&& forall|k: int|
                from + rest.len() <= k < content.len() ==> is_space(#[trigger] content[k])
        }),
{
    let start = trimmed_start(content);
    let rest = trimmed(content);
    let from = lemma_trimmed_start(content);
    lemma_trimmed_end(start);
    assert(content.subrange(from, from + rest.len()) =~= rest) by {
        assert forall|k: int| 0 <= k < rest.len() implies content[from + k] == #[trigger] rest[k] by {
            assert(start[k] == rest[k]);
            assert(start[k] == content.skip(from)[k]);
        }
    }
    assert forall|k: int| from + rest.len() <= k < content.len() implies is_space(
        #[trigger] content[k],
    ) by {
        assert(start[k - from] == content[k]);
    }
    if rest.len() > 0 {
        assert(rest.first() == start[0]);
    }
    from
}

proof fn lemma_trimmed_start(content: Seq<char>) -> (from: int)
    ensures
        0 <= from <= content.len(),
        trimmed_start(content) == content.skip(from),
        forall|k: int| 0 <= k < from ==> is_space(#[trigger] content[k]),
        from < content.len() ==> !is_space(content[from]),
    decreases content.len(),
{
    if content.len() > 0 && is_space(content.first()) {
        let rest = content.skip(1);
        let at = lemma_trimmed_start(rest);
        assert(rest.skip(at) =~= content.skip(at + 1));
        assert forall|k: int| 0 <= k < at + 1 implies is_space(#[trigger] content[k]) by {
            if k > 0 {
                assert(rest[k - 1] == content[k]);
            }
        }
        at + 1
    } else {
        assert(content.skip(0) =~= content);
        0
    }
}

proof fn lemma_trimmed_end(content: Seq<char>)
    ensures
        trimmed_end(content).len() <= content.len(),
        trimmed_end(content) == content.take(trimmed_end(content).len() as int),
        forall|k: int|
            trimmed_end(content).len() <= k < content.len() ==> is_space(#[trigger] content[k]),
        trimmed_end(content).len() > 0 ==> !is_space(trimmed_end(content).last()),
    decreases content.len(),
{
    if content.len() > 0 && is_space(content.last()) {
        let rest = content.drop_last();
        lemma_trimmed_end(rest);
        let n = trimmed_end(content).len() as int;
        assert(rest.take(n) =~= content.take(n));
        assert forall|k: int| n <= k < content.len() implies is_space(#[trigger] content[k]) by {
            if k < content.len() - 1 {
                assert(rest[k] == content[k]);
            }
        }
    } else {
        assert(content.take(content.len() as int) =~= content);
    }
}

/// No piece of a text holds the separator, and there is one piece more than there
/// are separators.
pub proof fn law_pieces_hold_no_separator(content: Seq<char>, separator: char)
    ensures
        pieces(content, separator).len() > 0,
        forall|i: int|
            0 <= i < pieces(content, separator).len() ==> !(#[trigger] pieces(
                content,
                separator,
            )[i]).contains(separator),
        !content.contains(separator) ==> pieces(content, separator) == seq![content],
    decreases content.len(),
{
    if content.len() == 0 {
        assert(pieces(content, separator)[0] == Seq::<char>::empty());
        assert(content =~= Seq::empty());
    } else {
        let rest = content.drop_last();
        law_pieces_hold_no_separator(rest, separator);
        let before = pieces(rest, separator);
        let after = pieces(content, separator);
        assert forall|i: int| 0 <= i < after.len() implies !(#[trigger] after[i]).contains(
            separator,
        ) by {
            if i < before.len() - 1 {
                assert(after[i] == before[i]);
            } else if content.last() != separator {
                let longer = before.last().push(content.last());
                assert(!before[before.len() - 1].contains(separator));
                assert forall|k: int| 0 <= k < longer.len() implies longer[k] != separator by {
                    if k < before.last().len() {
                        assert(before.last()[k] != separator);
                    }
                }
            } else if i < before.len() {
                assert(after[i] == before[i]);
            }
        }
        if !content.contains(separator) {
            assert(content[content.len() - 1] != separator);
            assert forall|k: int| 0 <= k < rest.len() implies rest[k] != separator by {
                assert(content[k] != separator);
            }
            assert(!rest.contains(separator));
            assert(before.last() == rest);
            assert(rest.push(content.last()) =~= content);
            assert(after =~= seq![content]);
        }
    }
}

/// Replacing a pattern that stands once in a text puts the new text in its place
/// and leaves what is around it.
pub proof fn law_replacing_a_pattern(
    a: Seq<char>,
    b: Seq<char>,
    pattern: Seq<char>,
    with: Seq<char>,
)
    requires
        pattern.len() > 0,
        !a.contains(pattern[0]),
        !b.contains(pattern[0]),
    ensures
        replaced(a + pattern + b, pattern, with) == a + with + b,
        replaced(a, pattern, with) == a,
    decreases a.len(),
{
    lemma_nothing_to_replace(a, pattern, with);
    lemma_nothing_to_replace(b, pattern, with);
    let whole = a + pattern + b;
    if a.len() == 0 {
        assert(whole =~= pattern + b);
        assert(whole.subrange(0, pattern.len() as int) =~= pattern);
        assert(whole.skip(pattern.len() as int) =~= b);
        assert(a + with + b =~= with + b);
    } else {
        let rest = a.skip(1);
        assert forall|k: int| 0 <= k < rest.len() implies rest[k] != pattern[0] by {
            assert(a[k + 1] != pattern[0]);
        }
        law_replacing_a_pattern(rest, b, pattern, with);
        assert(a[0] != pattern[0]);
        assert(whole[0] == a[0]);
        if occurs_at(whole, pattern, 0) {
            assert(whole.subrange(0, pattern.len() as int)[0] == pattern[0]);
        }
        assert(whole.skip(1) =~= rest + pattern + b);
        assert(seq![a[0]] + (rest + with + b) =~= a + with + b);
    }
}

/// A text without the first character of a pattern holds nothing to replace.
proof fn lemma_nothing_to_replace(a: Seq<char>, pattern: Seq<char>, with: Seq<char>)
    requires
        pattern.len() > 0,
        !a.contains(pattern[0]),
    ensures
        replaced(a, pattern, with) == a,
    decreases a.len(),
{
    if a.len() == 0 {
        assert(a =~= Seq::empty());
    } else {
        let rest = a.skip(1);
        assert(a[0] != pattern[0]);
        if occurs_at(a, pattern, 0) {
            assert(a.subrange(0, pattern.len() as int)[0] == pattern[0]);
        }
        assert forall|k: int| 0 <= k < rest.len() implies rest[k] != pattern[0] by {
            assert(a[k + 1] != pattern[0]);
        }
        lemma_nothing_to_replace(rest, pattern, with);
        assert(seq![a[0]] + rest =~= a);
    }
}

/// Noughts before a number do not change it.
proof fn lemma_noughts_before(count: nat, digits: Seq<char>)
    requires
        number_of(digits) is Some,
    ensures
        number_of(Seq::new(count, |i: int| '0') + digits) == number_of(digits),
    decreases digits.len(),
{
    let noughts = Seq::new(count, |i: int| '0');
    let whole = noughts + digits;
    if count == 0 {
        assert(whole =~= digits);
    } else if digits.len() == 1 {
        assert(whole.drop_last() =~= noughts);
        lemma_only_noughts(count);
        assert(whole.last() == digits[0]);
    } else {
        lemma_noughts_before(count, digits.drop_last());
        assert(whole.drop_last() =~= noughts + digits.drop_last());
        assert(whole.last() == digits.last());
    }
}

/// Noughts alone are the number nought.
proof fn lemma_only_noughts(count: nat)
    requires
        count > 0,
    ensures
        number_of(Seq::new(count, |i: int| '0')) == Some(0nat),
    decreases count,
{
    let noughts = Seq::new(count, |i: int| '0');
    assert(noughts.last() == '0');
    if count > 1 {
        lemma_only_noughts((count - 1) as nat);
        assert(noughts.drop_last() =~= Seq::new((count - 1) as nat, |i: int| '0'));
    }
}

/// A number that is padded reads back.
pub proof fn law_padded_numbers_read_back(value: nat, width: nat)
    ensures
        number_of(padded_decimal(value, width)) == Some(value),
{
    law_decimal_round_trip(value, value);
    law_decimal_form(value);
    let digits = decimal(value);
    assert(digits[0] != '+');
    assert(number_of(digits) == Some(value));
    if digits.len() < width {
        lemma_noughts_before((width - digits.len()) as nat, digits);
    }
}

/// What is handed to C is the text itself, or nothing: it never holds a NUL, and
/// a text is lost only if it holds one.
pub proof fn law_texts_for_c_hold_no_nul(text: Seq<char>)
    ensures
        has_no_nul(c_text(text)),
        c_text(text) == text || c_text(text).len() == 0,
        c_text(text) == text <==> has_no_nul(text),
        c_text(c_text(text)) == c_text(text),
{
    if has_no_nul(text) {
        assert(!text.contains('\0'));
    }
}

/// A result with a value has not failed, and one that failed did so with one
/// message.
pub proof fn law_a_value_is_no_failure<T>(
    value: T,
    result: Result<T, String>,
    one: Seq<char>,
    other: Seq<char>,
)
    ensures
        !fails_with(Ok::<T, String>(value), one),
        fails_with(result, one) ==> result is Err,
        fails_with(result, one) && fails_with(result, other) ==> one == other,
        result matches Err(message) ==> fails_with(result, message@),
{
}

} // verus!
