//! Reading command lines back, as the firmware does: words between spaces, of which those
//! that begin with two dashes are flags. Quotes keep spaces together.
//!
//! Nothing here is executed; the laws of the command builders are stated with it.
use crate::flags;
use crate::flags::FlagValue;
use crate::text;
use vstd::prelude::*;
use vstd::string::*;

verus! {

/// A line that is being read.
pub struct Reading {
    /// The words so far; the last one may go on.
    pub words: Seq<Seq<char>>,
    /// The quote that has to be closed, if one is open.
    pub quote: Option<char>,
}

impl Reading {
    /// One more character of the word that is being read.
    pub open spec fn longer(self, c: char) -> Seq<Seq<char>> {
        self.words.drop_last().push(self.words.last().push(c))
    }

    /// One more character. A space ends a word, unless a quote is open; a quote is closed by
    /// the same quote, and any other character in between stands for itself.
    pub open spec fn next(self, c: char) -> Reading {
        match self.quote {
            Some(q) => Reading {
                words: self.longer(c),
                quote: if c == q {
                    None
                } else {
                    Some(q)
                },
            },
            None => if c == ' ' {
                Reading { words: self.words.push(Seq::empty()), quote: None }
            } else if c == '\'' || c == '"' {
                Reading { words: self.longer(c), quote: Some(c) }
            } else {
                Reading { words: self.longer(c), quote: None }
            },
        }
    }
}

/// A line, read to its end.
pub open spec fn read(line: Seq<char>) -> Reading
    decreases line.len(),
{
    if line.len() == 0 {
        Reading { words: seq![Seq::empty()], quote: None }
    } else {
        read(line.drop_last()).next(line.last())
    }
}

/// The key and the value of a word of the form `--key=value`.
pub open spec fn flag_in(word: Seq<char>) -> Option<(Seq<char>, Seq<char>)> {
    let i = text::position(word, '=');
    if 2 <= i < word.len() && word[0] == '-' && word[1] == '-' {
        Some((word.subrange(2, i), word.skip(i + 1)))
    } else {
        None
    }
}

/// The flags among words, in order.
pub open spec fn flags_among(words: Seq<Seq<char>>) -> Seq<(Seq<char>, Seq<char>)>
    decreases words.len(),
{
    if words.len() == 0 {
        Seq::empty()
    } else {
        let earlier = flags_among(words.drop_last());
        match flag_in(words.last()) {
            Some(flag) => earlier.push(flag),
            None => earlier,
        }
    }
}

/// The flags of a line, in order, each with its key and its value.
pub open spec fn flags_of(line: Seq<char>) -> Seq<(Seq<char>, Seq<char>)> {
    flags_among(read(line).words)
}

/// A text without spaces and quotes.
pub open spec fn is_plain(s: Seq<char>) -> bool {
    forall|i: int| 0 <= i < s.len() ==> (#[trigger] s[i]) != ' ' && s[i] != '\'' && s[i] != '"'
}

/// A text in quotes that do not occur in it.
pub open spec fn is_quoted(s: Seq<char>) -> bool {
    &&& s.len() >= 2
    &&& s[0] == '\'' || s[0] == '"'
    &&& s.last() == s[0]
    &&& !s.subrange(1, s.len() - 1).contains(s[0])
}

/// One entry, or none.
pub open spec fn one(key: Seq<char>, value: Option<Seq<char>>) -> Seq<(Seq<char>, Seq<char>)> {
    match value {
        Some(v) => seq![(key, v)],
        None => Seq::empty(),
    }
}

/// A switch, written out.
pub open spec fn switch(value: Option<bool>) -> Option<Seq<char>> {
    match value {
        Some(true) => Some("on"@),
        Some(false) => Some("off"@),
        None => None,
    }
}

/// Unnamed parameters, written out.
pub open spec fn written(list: Seq<(Seq<char>, FlagValue)>) -> Seq<(Seq<char>, Seq<char>)> {
    list.map_values(
        |e: (Seq<char>, FlagValue)|
            (
                e.0,
                match e.1 {
                    FlagValue::Bool(true) => "on"@,
                    FlagValue::Bool(false) => "off"@,
                    FlagValue::Text(s) => s@,
                    FlagValue::Json(s) => s@,
                },
            ),
    )
}

/// Unnamed parameters that can be told apart on a line: keys and values are plain, and no key
/// holds an equals sign.
pub open spec fn are_plain(list: Seq<(Seq<char>, FlagValue)>) -> bool {
    forall|i: int|
        0 <= i < list.len() ==> is_plain((#[trigger] written(list)[i]).0) && !written(
            list,
        )[i].0.contains('=') && is_plain(written(list)[i].1)
}

// ─── Reading on ───────────────────────────────────────────────────────────

proof fn lemma_read_push(a: Seq<char>, c: char)
    ensures
        read(a.push(c)) == read(a).next(c),
{
    assert(a.push(c).drop_last() =~= a);
}

/// There is always a word being read.
proof fn lemma_read_some(a: Seq<char>)
    ensures
        read(a).words.len() > 0,
    decreases a.len(),
{
    if a.len() > 0 {
        lemma_read_some(a.drop_last());
    }
}

/// A plain text goes on with the word.
pub proof fn lemma_read_plain(a: Seq<char>, w: Seq<char>)
    requires
        read(a).quote is None,
        is_plain(w),
    ensures
        read(a + w).quote is None,
        read(a + w).words == read(a).words.drop_last().push(read(a).words.last() + w),
    decreases w.len(),
{
    lemma_read_some(a);
    let r = read(a);
    if w.len() == 0 {
        assert(a + w =~= a);
        assert(r.words.last() + w =~= r.words.last());
        assert(r.words.drop_last().push(r.words.last()) =~= r.words);
    } else {
        let head = w.drop_last();
        assert forall|i: int| 0 <= i < head.len() implies (#[trigger] head[i]) != ' ' && head[i]
            != '\'' && head[i] != '"' by {
            assert(head[i] == w[i]);
        }
        lemma_read_plain(a, head);
        assert((a + head).push(w.last()) =~= a + w);
        lemma_read_push(a + head, w.last());
        assert(w[w.len() - 1] == w.last());
        let word = r.words.last() + head;
        assert(r.words.drop_last().push(word).drop_last() =~= r.words.drop_last());
        assert(word.push(w.last()) =~= r.words.last() + w);
    }
}

/// Inside quotes everything but the quote goes on with the word.
proof fn lemma_read_inside(a: Seq<char>, v: Seq<char>, q: char)
    requires
        read(a).quote == Some(q),
        !v.contains(q),
    ensures
        read(a + v).quote == Some(q),
        read(a + v).words == read(a).words.drop_last().push(read(a).words.last() + v),
    decreases v.len(),
{
    lemma_read_some(a);
    let r = read(a);
    if v.len() == 0 {
        assert(a + v =~= a);
        assert(r.words.last() + v =~= r.words.last());
        assert(r.words.drop_last().push(r.words.last()) =~= r.words);
    } else {
        let head = v.drop_last();
        assert(!head.contains(q)) by {
            if head.contains(q) {
                let i = choose|i: int| 0 <= i < head.len() && head[i] == q;
                assert(v[i] == q);
            }
        }
        lemma_read_inside(a, head, q);
        assert((a + head).push(v.last()) =~= a + v);
        lemma_read_push(a + head, v.last());
        assert(v[v.len() - 1] != q);
        let word = r.words.last() + head;
        assert(r.words.drop_last().push(word).drop_last() =~= r.words.drop_last());
        assert(word.push(v.last()) =~= r.words.last() + v);
    }
}

/// A quoted text goes on with the word, spaces included.
proof fn lemma_read_quoted(a: Seq<char>, w: Seq<char>)
    requires
        read(a).quote is None,
        is_quoted(w),
    ensures
        read(a + w).quote is None,
        read(a + w).words == read(a).words.drop_last().push(read(a).words.last() + w),
{
    lemma_read_some(a);
    let r = read(a);
    let q = w[0];
    let v = w.subrange(1, w.len() - 1);
    let b = a.push(q);
    lemma_read_push(a, q);
    lemma_read_inside(b, v, q);
    lemma_read_push(b + v, q);
    assert((b + v).push(q) =~= a + w);
    let first = r.words.last().push(q);
    assert(read(b).words.drop_last() =~= r.words.drop_last());
    assert(read(b + v).words.drop_last() =~= r.words.drop_last());
    assert((first + v).push(q) =~= r.words.last() + w);
}

/// A flag behind a line is read as one flag more.
pub proof fn lemma_flag_is_read(line: Seq<char>, key: Seq<char>, value: Seq<char>)
    requires
        read(line).quote is None,
        is_plain(key),
        !key.contains('='),
        is_plain(value) || is_quoted(value),
    ensures
        read(line + flags::flag(key, value)).quote is None,
        flags_of(line + flags::flag(key, value)) == flags_of(line).push((key, value)),
{
    reveal_strlit(" --");
    reveal_strlit("=");
    lemma_read_some(line);
    let start = line.push(' ');
    lemma_read_push(line, ' ');
    let head = seq!['-', '-'] + key + seq!['='];
    assert(is_plain(head));
    lemma_read_plain(start, head);
    let words = read(line).words;
    assert(read(start).words.drop_last() =~= words);
    assert(Seq::<char>::empty() + head =~= head);
    assert(read(start + head).words == words.push(head));
    if is_plain(value) {
        lemma_read_plain(start + head, value);
    } else {
        lemma_read_quoted(start + head, value);
    }
    let word = head + value;
    assert(words.push(head).drop_last() =~= words);
    assert(start + head + value =~= line + flags::flag(key, value));
    assert(read(line + flags::flag(key, value)).words == words.push(word));
    assert(words.push(word).drop_last() =~= words);
    lemma_word_is_flag(key, value);
}

proof fn lemma_word_is_flag(key: Seq<char>, value: Seq<char>)
    requires
        !key.contains('='),
    ensures
        flag_in(seq!['-', '-'] + key + seq!['='] + value) == Some((key, value)),
{
    let word = seq!['-', '-'] + key + seq!['='] + value;
    let i = text::position(word, '=');
    let at = key.len() + 2;
    text::law_position_is_first(word, '=', at as int);
    assert(word[at as int] == '=');
    if i < at {
        assert(word[i] == '=');
        assert(i >= 2);
        assert(key[i - 2] == '=');
    }
    assert(i == at);
    assert(word.subrange(2, i) =~= key);
    assert(word.skip(i + 1) =~= value);
}

/// A flag that may be missing.
pub proof fn lemma_one_is_read(
    line: Seq<char>,
    key: Seq<char>,
    value: Option<Seq<char>>,
    piece: Seq<char>,
)
    requires
        read(line).quote is None,
        is_plain(key),
        !key.contains('='),
        value is Some ==> is_plain(value->0) || is_quoted(value->0),
        piece == (match value {
            Some(v) => flags::flag(key, v),
            None => Seq::empty(),
        }),
    ensures
        read(line + piece).quote is None,
        flags_of(line + piece) == flags_of(line) + one(key, value),
{
    match value {
        Some(v) => {
            lemma_flag_is_read(line, key, v);
            assert(flags_of(line).push((key, v)) =~= flags_of(line) + one(key, value));
        },
        None => {
            assert(line + piece =~= line);
            assert(flags_of(line) + one(key, value) =~= flags_of(line));
        },
    }
}

/// Unnamed parameters are read one by one.
pub proof fn lemma_extras_are_read(line: Seq<char>, list: Seq<(Seq<char>, FlagValue)>)
    requires
        read(line).quote is None,
        are_plain(list),
    ensures
        read(line + flags::flags(list)).quote is None,
        flags_of(line + flags::flags(list)) == flags_of(line) + written(list),
    decreases list.len(),
{
    if list.len() == 0 {
        assert(line + flags::flags(list) =~= line);
        assert(flags_of(line) + written(list) =~= flags_of(line));
    } else {
        let head = list.drop_last();
        let last = list.last();
        assert forall|i: int| 0 <= i < head.len() implies is_plain((#[trigger] written(head)[i]).0)
            && !written(head)[i].0.contains('=') && is_plain(written(head)[i].1) by {
            assert(written(head)[i] == written(list)[i]);
        }
        lemma_extras_are_read(line, head);
        let entry = written(list)[list.len() - 1];
        assert(entry.1 == flags::rendered(last.1@));
        lemma_flag_is_read(line + flags::flags(head), entry.0, entry.1);
        assert(line + flags::flags(head) + flags::flag(entry.0, entry.1) =~= line + flags::flags(
            list,
        ));
        assert((flags_of(line) + written(head)).push(entry) =~= flags_of(line) + written(list));
    }
}

/// Digits are neither spaces nor quotes.
pub proof fn lemma_decimal_is_plain(n: nat)
    ensures
        is_plain(text::decimal(n)),
    decreases n,
{
    if n >= 10 {
        lemma_decimal_is_plain(n / 10);
        text::law_decimal_is_base_ten(n / 10, n % 10);
        assert(10 * (n / 10) + n % 10 == n);
    } else {
        text::law_decimal_is_base_ten(0, n);
    }
}

// ─── Laws ─────────────────────────────────────────────────────────────────

/// A flag behind a line is read as one flag more, with its key and its value, whatever spaces a
/// quoted value holds.
pub proof fn law_flag_is_read_back(line: Seq<char>, key: Seq<char>, value: Seq<char>)
    requires
        read(line).quote is None,
        is_plain(key),
        !key.contains('='),
        is_plain(value) || is_quoted(value),
    ensures
        flags_of(line + " --"@ + key + "="@ + value) == flags_of(line).push((key, value)),
{
    lemma_flag_is_read(line, key, value);
    assert(line + " --"@ + key + "="@ + value =~= line + flags::flag(key, value));
}

} // verus!
