//! Text primitives: the small vocabulary of string operations that the command
//! builders, the info parser and the port scanner are specified with.
//!
//! Text is modelled as `Seq<char>` (the view of `str` and `String`).
use vstd::prelude::*;
use vstd::string::*;

verus! {

/// `String::push` appends one character at the end.
pub assume_specification[ String::push ](s: &mut String, ch: char)
    ensures
        final(s)@ == old(s)@.push(ch),
;

/// The text of an optional string.
pub open spec fn opt(o: Option<String>) -> Option<Seq<char>> {
    match o {
        Some(s) => Some(s@),
        None => None,
    }
}

/// The texts of a command line or of the reason why there is none.
pub open spec fn outcome(r: Result<String, String>) -> Result<Seq<char>, Seq<char>> {
    match r {
        Ok(s) => Ok(s@),
        Err(s) => Err(s@),
    }
}

// ─── Characters of a string ───────────────────────────────────────────────

/// The characters of `s`, in order.
pub fn chars_of(s: &str) -> (r: Vec<char>)
    ensures
        r@ == s@,
{
    let mut out: Vec<char> = Vec::new();
    for c in it: s.chars()
        invariant
            out@ == it.seq().take(it.index() as int),
            it.seq() == s@,
    {
        out.push(c);
    }
    assert(s@.take(s@.len() as int) == s@);
    out
}

/// The string made of `chars[from..to]`.
pub fn string_of(chars: &Vec<char>, from: usize, to: usize) -> (r: String)
    requires
        from <= to <= chars@.len(),
    ensures
        r@ == chars@.subrange(from as int, to as int),
{
    let mut out = String::new();
    let mut i: usize = from;
    while i < to
        invariant
            from <= i <= to <= chars@.len(),
            out@ == chars@.subrange(from as int, i as int),
        decreases to - i,
    {
        out.push(chars[i]);
        i += 1;
    }
    out
}

/// Whether two strings hold the same text.
pub fn str_eq(a: &str, b: &str) -> (r: bool)
    ensures
        r == (a@ == b@),
{
    let x = a.as_bytes();
    let y = b.as_bytes();
    proof {
        vstd::utf8::encode_utf8_decode_utf8(a@);
        vstd::utf8::encode_utf8_decode_utf8(b@);
    }
    if x.len() != y.len() {
        return false;
    }
    let mut i: usize = 0;
    while i < x.len()
        invariant
            i <= x@.len(),
            x@.len() == y@.len(),
            x@ == a.spec_bytes(),
            y@ == b.spec_bytes(),
            forall|j: int| 0 <= j < i ==> x@[j] == y@[j],
        decreases x@.len() - i,
    {
        if x[i] != y[i] {
            return false;
        }
        i += 1;
    }
    assert(x@ =~= y@);
    true
}

/// Whether `c` occurs in `s`.
pub fn contains_char(s: &str, c: char) -> (r: bool)
    ensures
        r == s@.contains(c),
{
    let chars = chars_of(s);
    let mut i: usize = 0;
    while i < chars.len()
        invariant
            i <= chars@.len(),
            chars@ == s@,
            forall|j: int| 0 <= j < i ==> chars@[j] != c,
        decreases chars@.len() - i,
    {
        if chars[i] == c {
            assert(s@[i as int] == c);
            return true;
        }
        i += 1;
    }
    false
}

/// `part` stands in `s` at position `i`.
pub open spec fn stands_at(s: Seq<char>, part: Seq<char>, i: int) -> bool {
    0 <= i <= s.len() - part.len() && s.subrange(i, i + part.len()) == part
}

/// `part` occurs in `s`.
pub open spec fn occurs(s: Seq<char>, part: Seq<char>) -> bool {
    exists|i: int| stands_at(s, part, i)
}

/// Whether `part` occurs in `s`.
pub fn contains_text(s: &str, part: &str) -> (r: bool)
    ensures
        r == occurs(s@, part@),
{
    let chars = chars_of(s);
    let wanted = chars_of(part);
    let n: usize = chars.len();
    let m: usize = wanted.len();
    if m > n {
        return false;
    }
    let mut i: usize = 0;
    loop
        invariant
            chars@ == s@,
            wanted@ == part@,
            n == chars@.len(),
            m == wanted@.len(),
            m <= n,
            i <= n - m,
            forall|j: int| 0 <= j < i ==> !stands_at(s@, part@, j),
        decreases n - i,
    {
        let mut k: usize = 0;
        while k < m && chars[i + k] == wanted[k]
            invariant
                chars@ == s@,
                wanted@ == part@,
                n == chars@.len(),
                m == wanted@.len(),
                m <= n,
                i <= n - m,
                k <= m,
                forall|j: int| 0 <= j < k ==> s@[i + j] == part@[j],
            decreases m - k,
        {
            k += 1;
        }
        if k == m {
            assert(s@.subrange(i as int, i + part@.len()) =~= part@);
            assert(stands_at(s@, part@, i as int));
            return true;
        }
        assert(!stands_at(s@, part@, i as int)) by {
            assert(s@[i + k] != part@[k as int]);
            if stands_at(s@, part@, i as int) {
                assert(s@.subrange(i as int, i + part@.len())[k as int] == s@[i + k]);
            }
        }
        if i == n - m {
            return false;
        }
        i += 1;
    }
}

// ─── Decimal numbers ──────────────────────────────────────────────────────

/// The character of a decimal digit.
pub open spec fn digit_char(d: nat) -> char {
    (48 + d) as char
}

/// `n` in decimal, without leading zeros.
pub open spec fn decimal(n: nat) -> Seq<char>
    decreases n,
{
    if n < 10 {
        seq![digit_char(n)]
    } else {
        decimal(n / 10).push(digit_char(n % 10))
    }
}

/// Append `n` in decimal.
pub fn push_decimal(out: &mut String, n: u64)
    ensures
        final(out)@ == old(out)@ + decimal(n as nat),
    decreases n,
{
    if n >= 10 {
        push_decimal(out, n / 10);
    }
    let digit: u8 = (n % 10) as u8;
    out.push((48 + digit) as char);
    assert(out@ =~= old(out)@ + decimal(n as nat));
}

/// The digits a text denotes, most significant first; `None` unless every
/// character is a decimal digit.
pub open spec fn digits_value(s: Seq<char>) -> Option<nat>
    decreases s.len(),
{
    if s.len() == 0 {
        Some(0)
    } else if '0' <= s.last() <= '9' {
        match digits_value(s.drop_last()) {
            Some(v) => Some(v * 10 + (s.last() as nat - 48) as nat),
            None => None,
        }
    } else {
        None
    }
}

/// An unsigned 32-bit number in decimal: an optional `+`, at least one digit,
/// a value that fits.
pub open spec fn parsed_u32(s: Seq<char>) -> Option<u32> {
    let digits = if s.len() > 0 && s[0] == '+' {
        s.skip(1)
    } else {
        s
    };
    if digits.len() == 0 {
        None
    } else {
        match digits_value(digits) {
            Some(v) => if v <= u32::MAX {
                Some(v as u32)
            } else {
                None
            },
            None => None,
        }
    }
}

/// A prefix that holds no number, or too large a one, spoils the whole.
proof fn lemma_digits_prefix(s: Seq<char>, i: int)
    requires
        0 <= i <= s.len(),
    ensures
        digits_value(s.take(i)) is None ==> digits_value(s) is None,
        digits_value(s) is Some ==> digits_value(s.take(i))->0 <= digits_value(s)->0,
    decreases s.len() - i,
{
    if i == s.len() {
        assert(s.take(i) =~= s);
    } else {
        lemma_digits_prefix(s, i + 1);
        assert(s.take(i + 1).drop_last() =~= s.take(i));
    }
}

/// Read `chars` as an unsigned 32-bit number.
pub fn parse_u32(chars: &Vec<char>) -> (r: Option<u32>)
    ensures
        r == parsed_u32(chars@),
{
    let start: usize = if chars.len() > 0 && chars[0] == '+' {
        1
    } else {
        0
    };
    let ghost digits = chars@.skip(start as int);
    assert(start == 0 ==> digits =~= chars@);
    if start >= chars.len() {
        return None;
    }
    let mut value: u64 = 0;
    let mut i: usize = start;
    while i < chars.len()
        invariant
            start <= i <= chars@.len(),
            digits == chars@.skip(start as int),
            digits.len() > 0,
            parsed_u32(chars@) == match digits_value(digits) {
                Some(v) => if v <= u32::MAX {
                    Some(v as u32)
                } else {
                    None
                },
                None => None,
            },
            digits_value(digits.take(i - start)) == Some(value as nat),
            value <= u32::MAX,
        decreases chars@.len() - i,
    {
        let c = chars[i];
        proof {
            assert(digits.take(i + 1 - start).drop_last() =~= digits.take(i - start));
            assert(digits.take(i + 1 - start).last() == c);
            lemma_digits_prefix(digits, i + 1 - start);
        }
        if c < '0' || c > '9' {
            return None;
        }
        value = value * 10 + (c as u64 - 48);
        if value > 0xffff_ffff {
            return None;
        }
        i += 1;
    }
    assert(digits.take(chars@.len() - start) =~= digits);
    Some(value as u32)
}

// ─── Case and blanks ──────────────────────────────────────────────────────

/// The ASCII lower case of a character; other characters are unchanged.
pub open spec fn lower_char(c: char) -> char {
    if 'A' <= c <= 'Z' {
        (c as u32 + 32) as char
    } else {
        c
    }
}

/// A text in ASCII lower case.
pub open spec fn lower(s: Seq<char>) -> Seq<char> {
    s.map_values(|c: char| lower_char(c))
}

/// `s` in ASCII lower case.
pub fn to_lower(s: &str) -> (r: String)
    ensures
        r@ == lower(s@),
{
    let mut out = String::new();
    for c in it: s.chars()
        invariant
            it.seq() == s@,
            out@ == lower(s@.take(it.index() as int)),
    {
        proof {
            assert(s@.take(it.index() + 1) =~= s@.take(it.index() as int).push(c));
        }
        if 'A' <= c && c <= 'Z' {
            out.push(((c as u8) + 32) as char);
        } else {
            out.push(c);
        }
        assert(out@ =~= lower(s@.take(it.index() + 1)));
    }
    assert(s@.take(s@.len() as int) == s@);
    out
}

/// Unicode white space.
pub open spec fn is_blank(c: char) -> bool {
    let u = c as u32;
    ||| 9 <= u <= 13
    ||| u == 32
    ||| u == 0x85
    ||| u == 0xa0
    ||| u == 0x1680
    ||| 0x2000 <= u <= 0x200a
    ||| u == 0x2028
    ||| u == 0x2029
    ||| u == 0x202f
    ||| u == 0x205f
    ||| u == 0x3000
}

/// Without the leading white space.
pub open spec fn trim_start(s: Seq<char>) -> Seq<char>
    decreases s.len(),
{
    if s.len() > 0 && is_blank(s[0]) {
        trim_start(s.skip(1))
    } else {
        s
    }
}

/// Without the trailing white space.
pub open spec fn trim_end(s: Seq<char>) -> Seq<char>
    decreases s.len(),
{
    if s.len() > 0 && is_blank(s.last()) {
        trim_end(s.drop_last())
    } else {
        s
    }
}

/// Without the leading and trailing white space.
pub open spec fn trim(s: Seq<char>) -> Seq<char> {
    trim_end(trim_start(s))
}

fn blank(c: char) -> (r: bool)
    ensures
        r == is_blank(c),
{
    let u = c as u32;
    (9 <= u && u <= 13) || u == 32 || u == 0x85 || u == 0xa0 || u == 0x1680 || (0x2000 <= u && u
        <= 0x200a) || u == 0x2028 || u == 0x2029 || u == 0x202f || u == 0x205f || u == 0x3000
}

/// `chars` without the white space at either end.
pub fn trimmed(chars: &Vec<char>) -> (r: Vec<char>)
    ensures
        r@ == trim(chars@),
{
    let mut from: usize = 0;
    assert(chars@.skip(0) =~= chars@);
    while from < chars.len() && blank(chars[from])
        invariant
            from <= chars@.len(),
            trim_start(chars@.skip(from as int)) == trim_start(chars@),
        decreases chars@.len() - from,
    {
        assert(chars@.skip(from as int).skip(1) =~= chars@.skip(from + 1));
        from += 1;
    }
    let ghost tail = chars@.skip(from as int);
    let mut to: usize = chars.len();
    assert(chars@.subrange(from as int, to as int) =~= tail);
    while to > from && blank(chars[to - 1])
        invariant
            from <= to <= chars@.len(),
            trim_end(chars@.subrange(from as int, to as int)) == trim_end(tail),
        decreases to,
    {
        assert(chars@.subrange(from as int, to as int).drop_last() =~= chars@.subrange(
            from as int,
            to - 1,
        ));
        to -= 1;
    }
    let mut out: Vec<char> = Vec::new();
    let mut i: usize = from;
    while i < to
        invariant
            from <= i <= to <= chars@.len(),
            out@ == chars@.subrange(from as int, i as int),
        decreases to - i,
    {
        out.push(chars[i]);
        i += 1;
    }
    out
}

/// Trimming and lowering commute.
pub proof fn lemma_trim_lower(s: Seq<char>)
    ensures
        trim(lower(s)) == lower(trim(s)),
{
    lemma_trim_start_lower(s);
    lemma_trim_end_lower(trim_start(s));
}

proof fn lemma_trim_start_lower(s: Seq<char>)
    ensures
        trim_start(lower(s)) == lower(trim_start(s)),
    decreases s.len(),
{
    if s.len() > 0 {
        assert(lower(s)[0] == lower_char(s[0]));
        assert(lower(s).skip(1) =~= lower(s.skip(1)));
        lemma_trim_start_lower(s.skip(1));
    }
}

proof fn lemma_trim_end_lower(s: Seq<char>)
    ensures
        trim_end(lower(s)) == lower(trim_end(s)),
    decreases s.len(),
{
    if s.len() > 0 {
        assert(lower(s).last() == lower_char(s.last()));
        assert(lower(s).drop_last() =~= lower(s.drop_last()));
        lemma_trim_end_lower(s.drop_last());
    }
}

/// Lowering twice is lowering once.
pub proof fn lemma_lower_idempotent(s: Seq<char>)
    ensures
        lower(lower(s)) == lower(s),
{
    assert(lower(lower(s)) =~= lower(s));
}

/// White space around a text does not matter to its trimmed form.
pub proof fn lemma_trim_blank(s: Seq<char>, c: char)
    requires
        is_blank(c),
    ensures
        trim(seq![c] + s) == trim(s),
        trim(s.push(c)) == trim(s),
{
    assert((seq![c] + s).skip(1) =~= s);
    lemma_trim_start_push(s, c);
}

proof fn lemma_trim_start_push(s: Seq<char>, c: char)
    requires
        is_blank(c),
    ensures
        trim(s.push(c)) == trim(s),
    decreases s.len(),
{
    if s.len() == 0 {
        assert(s.push(c).skip(1) =~= s);
    } else if is_blank(s[0]) {
        assert(s.push(c).skip(1) =~= s.skip(1).push(c));
        lemma_trim_start_push(s.skip(1), c);
    } else {
        assert(s.push(c).drop_last() =~= s);
    }
}

// ─── Splitting and joining ────────────────────────────────────────────────

/// The pieces of `s` between the occurrences of `sep`: always at least one.
pub open spec fn split(s: Seq<char>, sep: char) -> Seq<Seq<char>>
    decreases s.len(),
{
    if s.len() == 0 {
        seq![Seq::empty()]
    } else {
        let before = split(s.drop_last(), sep);
        if s.last() == sep {
            before.push(Seq::empty())
        } else {
            before.drop_last().push(before.last().push(s.last()))
        }
    }
}

/// A split has at least one piece.
pub proof fn lemma_split_nonempty(s: Seq<char>, sep: char)
    ensures
        split(s, sep).len() > 0,
    decreases s.len(),
{
    if s.len() > 0 {
        lemma_split_nonempty(s.drop_last(), sep);
    }
}

/// The texts that a list of character vectors holds.
pub open spec fn texts(list: Seq<Vec<char>>) -> Seq<Seq<char>> {
    list.map_values(|v: Vec<char>| v@)
}

/// The pieces of `chars` between the occurrences of `sep`.
pub fn split_chars(chars: &Vec<char>, sep: char) -> (r: Vec<Vec<char>>)
    ensures
        texts(r@) == split(chars@, sep),
{
    let mut pieces: Vec<Vec<char>> = Vec::new();
    let mut piece: Vec<char> = Vec::new();
    let mut i: usize = 0;
    assert(chars@.take(0) =~= Seq::empty());
    assert(texts(pieces@).push(piece@) =~= seq![Seq::empty()]);
    while i < chars.len()
        invariant
            i <= chars@.len(),
            texts(pieces@).push(piece@) == split(chars@.take(i as int), sep),
        decreases chars@.len() - i,
    {
        let ghost before = texts(pieces@).push(piece@);
        assert(chars@.take(i + 1).drop_last() =~= chars@.take(i as int));
        if chars[i] == sep {
            pieces.push(piece);
            piece = Vec::new();
            assert(texts(pieces@).push(piece@) =~= before.push(Seq::empty()));
        } else {
            piece.push(chars[i]);
            assert(texts(pieces@).push(piece@) =~= before.drop_last().push(
                before.last().push(chars@[i as int]),
            ));
        }
        i += 1;
    }
    assert(chars@.take(chars@.len() as int) =~= chars@);
    let ghost whole = texts(pieces@).push(piece@);
    pieces.push(piece);
    assert(texts(pieces@) =~= whole);
    pieces
}

/// Where `c` first occurs in `s`; the length of `s` when it does not.
pub open spec fn position(s: Seq<char>, c: char) -> int
    decreases s.len(),
{
    if s.len() == 0 || s[0] == c {
        0
    } else {
        1 + position(s.skip(1), c)
    }
}

/// The first occurrence of `c` in `chars`, or its length.
pub fn position_of(chars: &Vec<char>, c: char) -> (r: usize)
    ensures
        r == position(chars@, c),
        r <= chars@.len(),
{
    let mut i: usize = 0;
    assert(chars@.skip(0) =~= chars@);
    while i < chars.len() && chars[i] != c
        invariant
            i <= chars@.len(),
            position(chars@, c) == i + position(chars@.skip(i as int), c),
        decreases chars@.len() - i,
    {
        assert(chars@.skip(i as int).skip(1) =~= chars@.skip(i + 1));
        i += 1;
    }
    i
}

/// The texts of a list of string slices.
pub open spec fn names(list: Seq<&'static str>) -> Seq<Seq<char>> {
    list.map_values(|s: &'static str| s@)
}

/// The texts of a list of strings.
pub open spec fn strings(list: Seq<String>) -> Seq<Seq<char>> {
    list.map_values(|s: String| s@)
}

/// `list[0] + sep + list[1] + sep + …`.
pub open spec fn join(list: Seq<Seq<char>>, sep: Seq<char>) -> Seq<char>
    decreases list.len(),
{
    if list.len() == 0 {
        Seq::empty()
    } else if list.len() == 1 {
        list[0]
    } else {
        join(list.drop_last(), sep) + sep + list.last()
    }
}

/// Append the names of `list`, separated by `sep`.
pub fn push_joined(out: &mut String, list: &Vec<&'static str>, sep: &str)
    ensures
        final(out)@ == old(out)@ + join(names(list@), sep@),
{
    let ghost start = out@;
    let mut i: usize = 0;
    assert(names(list@).take(0) =~= Seq::empty());
    assert(out@ =~= start + join(names(list@).take(0), sep@));
    while i < list.len()
        invariant
            i <= list@.len(),
            out@ == start + join(names(list@).take(i as int), sep@),
        decreases list@.len() - i,
    {
        let ghost next = names(list@).take(i + 1);
        assert(next.drop_last() =~= names(list@).take(i as int));
        assert(next.last() == list@[i as int]@);
        if i > 0 {
            out.append(sep);
        }
        out.append(list[i]);
        assert(out@ =~= start + join(next, sep@));
        i += 1;
    }
    assert(names(list@).take(list@.len() as int) =~= names(list@));
}

/// Whether `name` is one of the names of `list`.
pub fn list_contains(list: &[&'static str], name: &str) -> (r: bool)
    ensures
        r == names(list@).contains(name@),
{
    let mut i: usize = 0;
    while i < list.len()
        invariant
            i <= list@.len(),
            forall|j: int| 0 <= j < i ==> names(list@)[j] != name@,
        decreases list@.len() - i,
    {
        assert(names(list@)[i as int] == list@[i as int]@);
        if str_eq(list[i], name) {
            return true;
        }
        i += 1;
    }
    false
}

/// `name` is one of the names of `list`, written in lower case.
pub open spec fn contains_lowered(list: Seq<Seq<char>>, name: Seq<char>) -> bool {
    exists|i: int| 0 <= i < list.len() && lower(#[trigger] list[i]) == name
}

/// Whether `name` is one of the names of `list`, written in lower case.
pub fn list_contains_lowered(list: &[&'static str], name: &str) -> (r: bool)
    ensures
        r == contains_lowered(names(list@), name@),
{
    let mut i: usize = 0;
    while i < list.len()
        invariant
            i <= list@.len(),
            forall|j: int| 0 <= j < i ==> lower(#[trigger] names(list@)[j]) != name@,
        decreases list@.len() - i,
    {
        assert(names(list@)[i as int] == list@[i as int]@);
        let lowered = to_lower(list[i]);
        if str_eq(lowered.as_str(), name) {
            return true;
        }
        i += 1;
    }
    false
}

// ─── Line breaks ──────────────────────────────────────────────────────────

/// A text without a line break.
#[verifier::opaque]
pub open spec fn one_line(s: Seq<char>) -> bool {
    !s.contains('\n') && !s.contains('\r')
}

/// Nothing has no line break.
pub proof fn lemma_one_line_empty()
    ensures
        one_line(Seq::empty()),
{
    reveal(one_line);
}

/// Texts without line breaks make up one without.
pub proof fn lemma_one_line_add(a: Seq<char>, b: Seq<char>)
    requires
        one_line(a),
        one_line(b),
    ensures
        one_line(a + b),
{
    reveal(one_line);
    assert forall|c: char| (a + b).contains(c) implies a.contains(c) || b.contains(c) by {
        let i = choose|i: int| 0 <= i < (a + b).len() && (a + b)[i] == c;
        if i < a.len() {
            assert(a[i] == c);
        } else {
            assert(b[i - a.len()] == c);
        }
    }
}

/// Lowering brings in no line break.
pub proof fn lemma_one_line_lower(s: Seq<char>)
    requires
        one_line(s),
    ensures
        one_line(lower(s)),
{
    reveal(one_line);
    assert forall|c: char| (c == '\n' || c == '\r') && lower(s).contains(c) implies s.contains(c) by {
        let i = choose|i: int| 0 <= i < lower(s).len() && lower(s)[i] == c;
        assert(lower_char(s[i]) == c);
        assert(s[i] == c);
    }
}

/// A number has no line break.
pub proof fn lemma_one_line_decimal(n: nat)
    ensures
        one_line(decimal(n)),
    decreases n,
{
    reveal(one_line);
    if n >= 10 {
        lemma_one_line_decimal(n / 10);
        let digit = seq![digit_char(n % 10)];
        lemma_one_line_add(decimal(n / 10), digit);
        assert(decimal(n) =~= decimal(n / 10) + digit);
    }
}

/// A text has no line break where its pieces have none.
pub proof fn lemma_one_line_pieces(s: Seq<char>, sep: char)
    requires
        sep != '\n',
        sep != '\r',
        forall|i: int|
            0 <= i < split(s, sep).len() ==> one_line(#[trigger] split(s, sep)[i]),
    ensures
        one_line(s),
    decreases s.len(),
{
    reveal(one_line);
    if s.len() > 0 {
        let head = s.drop_last();
        let before = split(head, sep);
        let pieces = split(s, sep);
        lemma_split_nonempty(head, sep);
        assert forall|i: int| 0 <= i < before.len() implies one_line(#[trigger] before[i]) by {
            if s.last() == sep || i < before.len() - 1 {
                assert(pieces[i] == before[i]);
            } else {
                assert(pieces[i] == before[i].push(s.last()));
                assert forall|c: char| before[i].contains(c) implies pieces[i].contains(c) by {
                    let k = choose|k: int| 0 <= k < before[i].len() && before[i][k] == c;
                    assert(pieces[i][k] == c);
                }
            }
        }
        lemma_one_line_pieces(head, sep);
        let tail = seq![s.last()];
        if s.last() != sep {
            let last = pieces[pieces.len() - 1];
            assert(last == before.last().push(s.last()));
            assert(last[last.len() - 1] == s.last());
            assert(one_line(last));
        }
        lemma_one_line_add(head, tail);
        assert(s =~= head + tail);
    }
}

// ─── Order ────────────────────────────────────────────────────────────────

/// Lexicographic order by code point.
pub open spec fn lex_lt(a: Seq<char>, b: Seq<char>) -> bool
    decreases a.len(),
{
    if b.len() == 0 {
        false
    } else if a.len() == 0 {
        true
    } else if a[0] != b[0] {
        a[0] < b[0]
    } else {
        lex_lt(a.skip(1), b.skip(1))
    }
}

/// No text precedes itself.
pub proof fn lemma_lex_irreflexive(a: Seq<char>)
    ensures
        !lex_lt(a, a),
    decreases a.len(),
{
    if a.len() > 0 {
        lemma_lex_irreflexive(a.skip(1));
    }
}

/// The order is transitive.
pub proof fn lemma_lex_transitive(a: Seq<char>, b: Seq<char>, c: Seq<char>)
    requires
        lex_lt(a, b),
        lex_lt(b, c),
    ensures
        lex_lt(a, c),
    decreases a.len(),
{
    if a.len() > 0 && a[0] == b[0] && b[0] == c[0] {
        lemma_lex_transitive(a.skip(1), b.skip(1), c.skip(1));
    }
}

/// Of two different texts one precedes the other.
pub proof fn lemma_lex_total(a: Seq<char>, b: Seq<char>)
    ensures
        a == b || lex_lt(a, b) || lex_lt(b, a),
        !(lex_lt(a, b) && lex_lt(b, a)),
    decreases a.len(),
{
    if a.len() == 0 {
        if b.len() == 0 {
            assert(a =~= b);
        }
    } else if b.len() > 0 && a[0] == b[0] {
        lemma_lex_total(a.skip(1), b.skip(1));
        if a.skip(1) == b.skip(1) {
            assert(a =~= seq![a[0]] + a.skip(1));
            assert(b =~= seq![b[0]] + b.skip(1));
        }
    }
}

/// Whether `a` precedes `b`.
pub fn str_lt(a: &str, b: &str) -> (r: bool)
    ensures
        r == lex_lt(a@, b@),
{
    let x = chars_of(a);
    let y = chars_of(b);
    let mut i: usize = 0;
    assert(x@.skip(0) =~= x@);
    assert(y@.skip(0) =~= y@);
    while i < x.len() && i < y.len() && x[i] == y[i]
        invariant
            i <= x@.len(),
            i <= y@.len(),
            x@ == a@,
            y@ == b@,
            lex_lt(a@, b@) == lex_lt(x@.skip(i as int), y@.skip(i as int)),
        decreases x@.len() - i,
    {
        assert(x@.skip(i as int).skip(1) =~= x@.skip(i + 1));
        assert(y@.skip(i as int).skip(1) =~= y@.skip(i + 1));
        i += 1;
    }
    if i >= y.len() {
        false
    } else if i >= x.len() {
        true
    } else {
        x[i] < y[i]
    }
}

/// Ascending, repetitions allowed.
pub open spec fn ascending(list: Seq<Seq<char>>) -> bool {
    forall|i: int, j: int| 0 <= i < j < list.len() ==> !lex_lt(#[trigger] list[j], #[trigger] list[i])
}

/// Put `s` into an ascending list, behind its equals.
fn insert_ascending(list: &mut Vec<String>, s: String)
    requires
        ascending(strings(old(list)@)),
    ensures
        ascending(strings(final(list)@)),
        strings(final(list)@).to_multiset() == strings(old(list)@).to_multiset().insert(s@),
{
    let mut i: usize = list.len();
    let ghost before = strings(list@);
    while i > 0 && str_lt(s.as_str(), list[i - 1].as_str())
        invariant
            i <= list@.len(),
            before == strings(list@),
            forall|j: int| i <= j < list@.len() ==> lex_lt(s@, #[trigger] before[j]),
        decreases i,
    {
        assert(before[i - 1] == list@[i - 1]@);
        i -= 1;
    }
    proof {
        before.to_multiset_ensures();
        before.insert(i as int, s@).to_multiset_ensures();
        vstd::seq_lib::to_multiset_insert(before, i as int, s@);
    }
    let ghost text = s@;
    list.insert(i, s);
    let ghost after = strings(list@);
    assert(after =~= before.insert(i as int, text));
    assert forall|a: int, b: int| 0 <= a < b < after.len() implies !lex_lt(
        #[trigger] after[b],
        #[trigger] after[a],
    ) by {
        if b == i {
            lemma_lex_total(before[i - 1], text);
            if a < i - 1 {
                lemma_lex_total(before[i - 1], before[a]);
                if lex_lt(text, before[a]) {
                    if before[i - 1] == before[a] {
                    } else {
                        lemma_lex_transitive(text, before[a], before[i - 1]);
                    }
                }
            }
        } else if a == i {
            lemma_lex_total(text, before[b - 1]);
        }
    }
}

/// The same strings in ascending order.
pub fn sort_strings(list: Vec<String>) -> (r: Vec<String>)
    ensures
        ascending(strings(r@)),
        strings(r@).to_multiset() == strings(list@).to_multiset(),
{
    let mut out: Vec<String> = Vec::new();
    let mut i: usize = 0;
    assert(strings(list@).take(0) =~= strings(out@));
    while i < list.len()
        invariant
            i <= list@.len(),
            ascending(strings(out@)),
            strings(out@).to_multiset() == strings(list@).take(i as int).to_multiset(),
        decreases list@.len() - i,
    {
        proof {
            let s = strings(list@);
            s.take(i as int).to_multiset_ensures();
            assert(s.take(i + 1) =~= s.take(i as int).push(s[i as int]));
        }
        insert_ascending(&mut out, list[i].clone());
        i += 1;
    }
    assert(strings(list@).take(list@.len() as int) =~= strings(list@));
    out
}

// ─── Laws ─────────────────────────────────────────────────────────────────

/// A number that is written in decimal is read back.
pub proof fn law_decimal_round_trip(n: u32)
    ensures
        parsed_u32(decimal(n as nat)) == Some(n),
{
    lemma_decimal_digits(n as nat);
}

proof fn lemma_decimal_digits(n: nat)
    ensures
        decimal(n).len() > 0,
        decimal(n)[0] != '+',
        digits_value(decimal(n)) == Some(n),
    decreases n,
{
    reveal_with_fuel(digits_value, 2);
    if n < 10 {
        assert(decimal(n).drop_last() =~= Seq::empty());
    } else {
        lemma_decimal_digits(n / 10);
        assert(decimal(n).drop_last() =~= decimal(n / 10));
    }
}

/// A list whose entries hold no separator is read back from its joined form.
pub proof fn law_join_split(list: Seq<Seq<char>>, sep: char)
    requires
        list.len() > 0,
        forall|i: int| 0 <= i < list.len() ==> !(#[trigger] list[i]).contains(sep),
    ensures
        split(join(list, seq![sep]), sep) == list,
    decreases list.len(),
{
    let last = list.last();
    assert(!list[list.len() - 1].contains(sep));
    if list.len() == 1 {
        lemma_split_single(list[0], sep);
        assert(split(list[0], sep) =~= list);
    } else {
        let earlier = list.drop_last();
        assert forall|i: int| 0 <= i < earlier.len() implies !(#[trigger] earlier[i]).contains(
            sep,
        ) by {
            assert(earlier[i] == list[i]);
        }
        law_join_split(earlier, sep);
        lemma_split_append(join(earlier, seq![sep]), last, sep);
        assert(split(join(list, seq![sep]), sep) =~= list);
    }
}

/// A text without a separator is one piece.
pub proof fn lemma_split_single(s: Seq<char>, sep: char)
    requires
        !s.contains(sep),
    ensures
        split(s, sep) == seq![s],
    decreases s.len(),
{
    if s.len() > 0 {
        assert(s[s.len() - 1] != sep);
        assert(!s.drop_last().contains(sep)) by {
            if s.drop_last().contains(sep) {
                let i = choose|i: int| 0 <= i < s.len() - 1 && s.drop_last()[i] == sep;
                assert(s[i] == sep);
            }
        }
        lemma_split_single(s.drop_last(), sep);
        assert(s.drop_last().push(s.last()) =~= s);
        assert(split(s, sep) =~= seq![s]);
    } else {
        assert(s =~= Seq::empty());
    }
}

/// A text that is put behind a separator adds its own pieces.
pub proof fn lemma_split_concat(a: Seq<char>, b: Seq<char>, sep: char)
    ensures
        split(a.push(sep) + b, sep) == split(a, sep) + split(b, sep),
    decreases b.len(),
{
    let whole = a.push(sep) + b;
    lemma_split_nonempty(b, sep);
    if b.len() == 0 {
        assert(whole =~= a.push(sep));
        assert(whole.drop_last() =~= a);
        assert(split(whole, sep) =~= split(a, sep) + split(b, sep));
    } else {
        let head = b.drop_last();
        lemma_split_concat(a, head, sep);
        lemma_split_nonempty(head, sep);
        assert(whole.drop_last() =~= a.push(sep) + head);
        assert(whole.last() == b.last());
        assert(split(whole, sep) =~= split(a, sep) + split(b, sep));
    }
}

proof fn lemma_split_append(a: Seq<char>, b: Seq<char>, sep: char)
    requires
        !b.contains(sep),
    ensures
        split(a + seq![sep] + b, sep) == split(a, sep).push(b),
    decreases b.len(),
{
    let whole = a + seq![sep] + b;
    if b.len() == 0 {
        assert(whole.drop_last() =~= a);
        assert(whole.last() == sep);
        assert(b =~= Seq::empty());
    } else {
        assert(b[b.len() - 1] != sep);
        assert(!b.drop_last().contains(sep)) by {
            if b.drop_last().contains(sep) {
                let i = choose|i: int| 0 <= i < b.len() - 1 && b.drop_last()[i] == sep;
                assert(b[i] == sep);
            }
        }
        lemma_split_append(a, b.drop_last(), sep);
        assert(whole.drop_last() =~= a + seq![sep] + b.drop_last());
        assert(whole.last() == b.last());
        assert(b.drop_last().push(b.last()) =~= b);
        assert(split(whole, sep) =~= split(a, sep).push(b));
    }
}

/// Decimal is base ten: a digit is written as its character, and a longer number as its
/// leading part followed by its last digit. No number is written with a leading zero, and
/// the digits give the number back.
pub proof fn law_decimal_is_base_ten(n: nat, d: nat)
    requires
        d < 10,
    ensures
        decimal(d).len() == 1,
        decimal(d)[0] as int == 48 + d,
        n > 0 ==> decimal(10 * n + d) == decimal(n) + decimal(d),
        n > 0 ==> decimal(n)[0] != '0',
        digits_value(decimal(n)) == Some(n),
    decreases n,
{
    lemma_decimal_digits(n);
    if n > 0 {
        assert((10 * n + d) / 10 == n);
        assert((10 * n + d) % 10 == d);
        assert(decimal(10 * n + d) =~= decimal(n) + decimal(d));
        if n >= 10 {
            law_decimal_is_base_ten(n / 10, d);
            lemma_decimal_digits(n / 10);
        }
    }
}

/// A text is read as a number exactly if it is one: nothing is read from the empty text,
/// from one with a character that is no digit, or from a number that is too large; leading
/// zeros and one leading `+` make no difference.
pub proof fn law_numbers_are_read(s: Seq<char>, n: nat, i: int)
    ensures
        parsed_u32(Seq::empty()) is None,
        parsed_u32(seq!['+']) is None,
        0 <= i < s.len() && !('0' <= s[i] <= '9') && (i > 0 || s[i] != '+') ==> parsed_u32(
            s,
        ) is None,
        n <= u32::MAX ==> parsed_u32(decimal(n)) == Some(n as u32),
        n > u32::MAX ==> parsed_u32(decimal(n)) is None,
        s.len() > 0 && s[0] != '+' ==> parsed_u32(seq!['+'] + s) == parsed_u32(s),
        s.len() > 0 && s[0] != '+' ==> parsed_u32(seq!['0'] + s) == parsed_u32(s),
{
    lemma_decimal_digits(n);
    assert(seq!['+'].skip(1) =~= Seq::<char>::empty());
    if 0 <= i < s.len() && !('0' <= s[i] <= '9') && (i > 0 || s[i] != '+') {
        let digits = if s[0] == '+' {
            s.skip(1)
        } else {
            s
        };
        let k = if s[0] == '+' {
            i - 1
        } else {
            i
        };
        lemma_digits_prefix(digits, k + 1);
        assert(digits.take(k + 1).last() == s[i]);
    }
    if s.len() > 0 && s[0] != '+' {
        assert((seq!['+'] + s).skip(1) =~= s);
        lemma_leading_zero(s);
    }
}

proof fn lemma_leading_zero(s: Seq<char>)
    ensures
        digits_value(seq!['0'] + s) == digits_value(s),
    decreases s.len(),
{
    let longer = seq!['0'] + s;
    if s.len() == 0 {
        reveal_with_fuel(digits_value, 2);
        assert(longer.drop_last() =~= Seq::empty());
    } else {
        assert(longer.drop_last() =~= seq!['0'] + s.drop_last());
        lemma_leading_zero(s.drop_last());
    }
}

/// Lowering maps `A` to `Z` to `a` to `z`, each in its place, and leaves every other
/// character as it is.
pub proof fn law_lowering_is_ascii(s: Seq<char>, i: int)
    requires
        0 <= i < s.len(),
    ensures
        lower(s).len() == s.len(),
        65 <= s[i] as int <= 90 ==> lower(s)[i] as int == s[i] as int + 32,
        !(65 <= s[i] as int <= 90) ==> lower(s)[i] == s[i],
{
}

/// Trimming takes white space off both ends, all of it and nothing else.
pub proof fn law_trimming_is_maximal(s: Seq<char>)
    ensures
        exists|i: int, j: int| #[trigger]
            trimmed_between(s, i, j) && trim(s) == s.subrange(i, j),
        trim(s).len() > 0 ==> !is_blank(trim(s)[0]) && !is_blank(trim(s).last()),
{
    let i = lemma_trim_start(s);
    let t = trim_start(s);
    let k = lemma_trim_end(t);
    let j = i + k;
    assert(trim(s) =~= s.subrange(i, j));
    assert(trimmed_between(s, i, j)) by {
        assert forall|m: int| j <= m < s.len() implies is_blank(#[trigger] s[m]) by {
            assert(t[m - i] == s[m]);
        }
    }
}

/// Only white space stands before `i` and from `j` on.
pub open spec fn trimmed_between(s: Seq<char>, i: int, j: int) -> bool {
    &&& 0 <= i <= j <= s.len()
    &&& forall|m: int| 0 <= m < i ==> is_blank(#[trigger] s[m])
    &&& forall|m: int| j <= m < s.len() ==> is_blank(#[trigger] s[m])
}

proof fn lemma_trim_start(s: Seq<char>) -> (i: int)
    ensures
        0 <= i <= s.len(),
        trim_start(s) == s.skip(i),
        forall|m: int| 0 <= m < i ==> is_blank(#[trigger] s[m]),
        i < s.len() ==> !is_blank(s[i]),
    decreases s.len(),
{
    if s.len() > 0 && is_blank(s[0]) {
        let rest = s.skip(1);
        let k = lemma_trim_start(rest);
        assert(rest.skip(k) =~= s.skip(k + 1));
        assert forall|m: int| 0 <= m < k + 1 implies is_blank(#[trigger] s[m]) by {
            if m > 0 {
                assert(rest[m - 1] == s[m]);
            }
        }
        k + 1
    } else {
        assert(s.skip(0) =~= s);
        0
    }
}

proof fn lemma_trim_end(s: Seq<char>) -> (j: int)
    ensures
        0 <= j <= s.len(),
        trim_end(s) == s.take(j),
        forall|m: int| j <= m < s.len() ==> is_blank(#[trigger] s[m]),
        j > 0 ==> !is_blank(s[j - 1]),
        j > 0 && !is_blank(s[0]) ==> trim_end(s)[0] == s[0],
    decreases s.len(),
{
    if s.len() > 0 && is_blank(s.last()) {
        let rest = s.drop_last();
        let j = lemma_trim_end(rest);
        assert(rest.take(j) =~= s.take(j));
        assert forall|m: int| j <= m < s.len() implies is_blank(#[trigger] s[m]) by {
            if m < s.len() - 1 {
                assert(rest[m] == s[m]);
            }
        }
        j
    } else {
        assert(s.take(s.len() as int) =~= s);
        s.len() as int
    }
}

/// White space is what Unicode calls so: tab to carriage return, the space, and the wider
/// spaces and separators; no visible ASCII character is.
pub proof fn law_white_space(c: char)
    ensures
        33 <= c as int <= 126 ==> !is_blank(c),
        is_blank(c) <==> (9 <= c as int <= 13 || c as int == 32 || c as int == 133 || c as int
            == 160 || c as int == 5760 || 8192 <= c as int <= 8202 || c as int == 8232 || c as int
            == 8233 || c as int == 8239 || c as int == 8287 || c as int == 12288),
{
}

/// A part occurs in a text exactly if the text is something, the part, and something.
pub proof fn law_occurrence_is_a_cut(s: Seq<char>, part: Seq<char>, before: Seq<char>, behind: Seq<char>)
    ensures
        s == before + part + behind ==> occurs(s, part),
        occurs(s, part) ==> exists|a: Seq<char>, b: Seq<char>| #[trigger] (a + part + b) == s,
{
    if s == before + part + behind {
        assert(s.subrange(before.len() as int, (before.len() + part.len()) as int) =~= part);
        assert(stands_at(s, part, before.len() as int));
    }
    if occurs(s, part) {
        let i = choose|i: int| stands_at(s, part, i);
        assert(s.take(i) + part + s.skip(i + part.len()) =~= s);
    }
}

/// The position of a character is where it first stands; of one that does not occur, the
/// length of the text.
pub proof fn law_position_is_first(s: Seq<char>, c: char, i: int)
    ensures
        0 <= position(s, c) <= s.len(),
        position(s, c) < s.len() ==> s[position(s, c)] == c,
        0 <= i < position(s, c) ==> s[i] != c,
    decreases s.len(),
{
    if s.len() > 0 && s[0] != c {
        law_position_is_first(s.skip(1), c, i - 1);
        if 0 < i < position(s, c) {
            assert(s.skip(1)[i - 1] == s[i]);
        }
    }
}

/// The pieces of a text hold no separator, and joined by it they are the text.
pub proof fn law_split_join(s: Seq<char>, sep: char, i: int)
    ensures
        split(s, sep).len() > 0,
        join(split(s, sep), seq![sep]) == s,
        0 <= i < split(s, sep).len() ==> !split(s, sep)[i].contains(sep),
    decreases s.len(),
{
    lemma_split_nonempty(s, sep);
    let pieces = split(s, sep);
    if s.len() == 0 {
        assert(pieces =~= seq![Seq::<char>::empty()]);
        assert(s =~= Seq::empty());
    } else {
        let head = s.drop_last();
        let before = split(head, sep);
        law_split_join(head, sep, i);
        law_split_join(head, sep, before.len() - 1);
        assert(head.push(s.last()) =~= s);
        if s.last() == sep {
            assert(pieces.drop_last() =~= before);
            assert(join(pieces, seq![sep]) =~= s);
        } else {
            let last = before.last();
            assert(!last.push(s.last()).contains(sep)) by {
                if last.push(s.last()).contains(sep) {
                    let k = choose|k: int|
                        0 <= k < last.push(s.last()).len() && last.push(s.last())[k] == sep;
                    assert(k < last.len());
                    assert(last[k] == sep);
                }
            }
            assert(pieces.drop_last() =~= before.drop_last());
            if before.len() == 1 {
                assert(join(pieces, seq![sep]) =~= s);
            } else {
                assert(join(pieces, seq![sep]) =~= join(before, seq![sep]).push(s.last()));
            }
        }
    }
}

/// Joining puts the separator between the entries and nowhere else.
pub proof fn law_joining_separates(list: Seq<Seq<char>>, sep: Seq<char>, s: Seq<char>)
    ensures
        join(Seq::empty(), sep) == Seq::<char>::empty(),
        join(seq![s], sep) == s,
        list.len() > 0 ==> join(list.push(s), sep) == join(list, sep) + sep + s,
{
    assert(list.push(s).drop_last() =~= list);
}

/// Texts are ordered as dictionaries order them: the first character in which they differ
/// decides, by its code point, and a text precedes every longer one that begins with it.
pub proof fn law_order_is_lexicographic(
    common: Seq<char>,
    x: char,
    y: char,
    a: Seq<char>,
    b: Seq<char>,
)
    ensures
        x as int != y as int ==> lex_lt(common.push(x) + a, common.push(y) + b) == ((x as int) < (
        y as int)),
        lex_lt(common, common.push(x) + a),
        !lex_lt(common.push(x) + a, common),
        !lex_lt(common, common),
    decreases common.len(),
{
    let p = common.push(x) + a;
    let q = common.push(y) + b;
    if common.len() > 0 {
        let rest = common.skip(1);
        law_order_is_lexicographic(rest, x, y, a, b);
        assert(p.skip(1) =~= rest.push(x) + a);
        assert(q.skip(1) =~= rest.push(y) + b);
    }
}

/// What the operations on text give, character by character: lower case, trimming, pieces, the
/// first position, and numbers read from what was written.
pub proof fn law_operations(
    s: &str,
    chars: Vec<char>,
    c: char,
    part: &str,
    lowered: String,
    kept: Vec<char>,
    pieces: Vec<Vec<char>>,
    at: usize,
    found: bool,
    n: u32,
    number: Option<u32>,
    i: int,
)
    requires
        chars@ == s@,
        call_ensures(to_lower, (s,), lowered),
        call_ensures(trimmed, (&chars,), kept),
        call_ensures(split_chars, (&chars, c), pieces),
        call_ensures(position_of, (&chars, c), at),
        call_ensures(contains_text, (s, part), found),
        call_ensures(parse_u32, (&chars,), number),
    ensures
        lowered@.len() == s@.len(),
        0 <= i < s@.len() ==> lowered@[i] as int == (if 65 <= s@[i] as int <= 90 {
            s@[i] as int + 32
        } else {
            s@[i] as int
        }),
        kept@.len() > 0 ==> !is_blank(kept@[0]) && !is_blank(kept@.last()),
        exists|a: int, b: int| #[trigger]
            trimmed_between(s@, a, b) && kept@ == s@.subrange(a, b),
        join(texts(pieces@), seq![c]) == s@,
        0 <= i < pieces@.len() ==> !pieces@[i]@.contains(c),
        at <= s@.len(),
        at < s@.len() ==> s@[at as int] == c,
        0 <= i < at ==> s@[i] != c,
        found <==> exists|a: Seq<char>, b: Seq<char>| #[trigger] (a + part@ + b) == s@,
        s@ == decimal(n as nat) ==> number == Some(n),
{
    if 0 <= i < s@.len() {
        law_lowering_is_ascii(s@, i);
    }
    law_trimming_is_maximal(s@);
    law_split_join(s@, c, i);
    if 0 <= i < pieces@.len() {
        assert(texts(pieces@)[i] == pieces@[i]@);
    }
    law_position_is_first(s@, c, i);
    law_occurrence_is_a_cut(s@, part@, Seq::empty(), Seq::empty());
    if exists|a: Seq<char>, b: Seq<char>| #[trigger] (a + part@ + b) == s@ {
        let (a, b) = choose|a: Seq<char>, b: Seq<char>| #[trigger] (a + part@ + b) == s@;
        law_occurrence_is_a_cut(s@, part@, a, b);
    }
    law_decimal_round_trip(n);
}

// ─── A line with a piece more ─────────────────────────────────────────────

/// `longer` is `shorter` with `piece` put in at position `i`.
pub open spec fn put_in_at(
    longer: Seq<char>,
    shorter: Seq<char>,
    piece: Seq<char>,
    i: int,
) -> bool {
    0 <= i <= shorter.len() && longer == shorter.take(i) + piece + shorter.skip(i)
}

/// `longer` is `shorter` with `piece` put in at one place.
pub open spec fn put_in(longer: Seq<char>, shorter: Seq<char>, piece: Seq<char>) -> bool {
    exists|i: int| put_in_at(longer, shorter, piece, i)
}

/// `longer` is `shorter` with a flag put in whose value stands in quotes that do not occur
/// in it.
pub open spec fn put_in_quoted(
    longer: Seq<char>,
    shorter: Seq<char>,
    name: Seq<char>,
    value: Seq<char>,
) -> bool {
    ||| !value.contains('\'') && put_in(longer, shorter, name + seq!['\''] + value + seq!['\''])
    ||| value.contains('\'') && !value.contains('"') && put_in(
        longer,
        shorter,
        name + seq!['"'] + value + seq!['"'],
    )
}

/// `list[0] + list[1] + …`.
pub open spec fn concat(list: Seq<Seq<char>>) -> Seq<char>
    decreases list.len(),
{
    if list.len() == 0 {
        Seq::empty()
    } else {
        concat(list.drop_last()) + list.last()
    }
}

/// One piece more.
pub proof fn lemma_concat_push(list: Seq<Seq<char>>, piece: Seq<char>)
    ensures
        concat(list.push(piece)) == concat(list) + piece,
{
    assert(list.push(piece).drop_last() =~= list);
}

/// A list of pieces differs from the one with an empty piece in its place by just that
/// piece.
pub proof fn lemma_concat_put_in(list: Seq<Seq<char>>, k: int)
    requires
        0 <= k < list.len(),
    ensures
        put_in(concat(list), concat(list.update(k, Seq::empty())), list[k]),
    decreases list.len(),
{
    let bare = list.update(k, Seq::empty());
    let head = list.drop_last();
    let last = list.last();
    if k == list.len() - 1 {
        assert(bare.drop_last() =~= head);
        assert(concat(bare) =~= concat(head));
        assert(concat(list) =~= concat(bare).take(concat(bare).len() as int) + list[k]
            + concat(bare).skip(concat(bare).len() as int));
        assert(put_in_at(concat(list), concat(bare), list[k], concat(bare).len() as int));
    } else {
        lemma_concat_put_in(head, k);
        let less = head.update(k, Seq::empty());
        assert(bare.drop_last() =~= less);
        let i = choose|i: int| put_in_at(concat(head), concat(less), list[k], i);
        assert(concat(list) =~= concat(bare).take(i) + list[k] + concat(bare).skip(i));
        assert(put_in_at(concat(list), concat(bare), list[k], i));
    }
}

} // verus!
