//! Firmware identification: the `info` exchange and the block it brings back.
use crate::models::device::{DeviceInfo, DeviceInfoView};
use crate::text;
use vstd::prelude::*;
use vstd::string::*;

verus! {

// ─── Decoding ─────────────────────────────────────────────────────────────

/// The text that bytes from the wire are read as, whatever they hold.
pub uninterp spec fn utf8_lossy(raw: Seq<u8>) -> Seq<char>;

/// `String::from_utf8_lossy`: the result depends on the bytes alone and is named
/// [`utf8_lossy`]; bytes that are UTF-8 give the text they encode. What stands for
/// bytes that are not is left open.
#[verifier::external_body]
fn lossy_text(raw: &[u8]) -> (r: String)
    ensures
        r@ == utf8_lossy(raw@),
        vstd::utf8::valid_utf8(raw@) ==> r@ == vstd::utf8::decode_utf8(raw@),
{
    String::from_utf8_lossy(raw).into_owned()
}

// ─── Lines ────────────────────────────────────────────────────────────────

/// The lines of a text, each without the white space around it. A line end at the
/// very end begins no further line.
pub open spec fn trimmed_lines(s: Seq<char>) -> Seq<Seq<char>> {
    let pieces = text::split(s, '\n');
    let lines = if pieces.last().len() == 0 {
        pieces.drop_last()
    } else {
        pieces
    };
    lines.map_values(|line: Seq<char>| text::trim(line))
}

/// The first line at or behind `from` that satisfies `p`; the number of lines when
/// there is none.
pub open spec fn first_where(
    lines: Seq<Seq<char>>,
    p: spec_fn(Seq<char>) -> bool,
    from: int,
) -> int
    decreases lines.len() - from,
{
    if from >= lines.len() {
        lines.len() as int
    } else if p(lines[from]) {
        from
    } else {
        first_where(lines, p, from + 1)
    }
}

/// The magic prefix of the first line of the block.
pub open spec fn is_magic(line: Seq<char>) -> bool {
    "ESP-CSI-CLI/"@.is_prefix_of(line)
}

/// The last line of the block.
pub open spec fn is_end(line: Seq<char>) -> bool {
    line == "END-INFO"@
}

/// The entries of a comma-separated list, without white space around them; empty
/// ones are dropped.
pub open spec fn feature_list(value: Seq<char>) -> Seq<Seq<char>> {
    text::split(value, ',').map_values(|s: Seq<char>| text::trim(s)).filter(
        |s: Seq<char>| s.len() > 0,
    )
}

/// What a `key=value` line adds to the identification. Other lines, and unknown
/// keys, add nothing; a key that comes again replaces what it said before.
pub open spec fn with_line(info: DeviceInfoView, line: Seq<char>) -> DeviceInfoView {
    let i = text::position(line, '=');
    let key = line.take(i);
    let value = line.skip(i + 1);
    if i >= line.len() {
        info
    } else if key == "name"@ {
        DeviceInfoView { name: Some(value), ..info }
    } else if key == "version"@ {
        DeviceInfoView { version: Some(value), ..info }
    } else if key == "chip"@ {
        DeviceInfoView { chip: Some(value), ..info }
    } else if key == "mac"@ {
        DeviceInfoView { mac: Some(value), ..info }
    } else if key == "protocol"@ {
        DeviceInfoView { protocol: text::parsed_u32(value), ..info }
    } else if key == "features"@ {
        DeviceInfoView { features: feature_list(value), ..info }
    } else {
        info
    }
}

/// What a run of lines adds to the identification.
pub open spec fn with_lines(info: DeviceInfoView, lines: Seq<Seq<char>>) -> DeviceInfoView
    decreases lines.len(),
{
    if lines.len() == 0 {
        info
    } else {
        with_line(with_lines(info, lines.drop_last()), lines.last())
    }
}

/// An identification of which only the banner is known.
pub open spec fn banner_only(version: Seq<char>) -> DeviceInfoView {
    DeviceInfoView {
        banner_version: version,
        name: None,
        version: None,
        chip: None,
        mac: None,
        protocol: None,
        features: Seq::empty(),
    }
}

/// The identification that a run of lines holds: what stands between the first
/// magic line and the first end line behind it.
pub open spec fn parsed_lines(lines: Seq<Seq<char>>) -> Result<DeviceInfoView, Seq<char>> {
    let start = first_where(lines, |l: Seq<char>| is_magic(l), 0);
    let end = first_where(lines, |l: Seq<char>| is_end(l), start);
    if start >= lines.len() {
        Err("info magic prefix 'ESP-CSI-CLI/' not seen — firmware is not esp-csi-cli-rs"@)
    } else if end >= lines.len() {
        Err("END-INFO sentinel not seen in info block"@)
    } else {
        Ok(
            with_lines(
                banner_only(lines[start].skip("ESP-CSI-CLI/"@.len() as int)),
                lines.subrange(start + 1, end),
            ),
        )
    }
}

/// The identification that a text holds.
pub open spec fn parsed_text(s: Seq<char>) -> Result<DeviceInfoView, Seq<char>> {
    parsed_lines(trimmed_lines(s))
}

/// An identification, or the reason why there is none, in mathematical form.
pub open spec fn info_outcome(r: Result<DeviceInfo, String>) -> Result<DeviceInfoView, Seq<char>> {
    match r {
        Ok(info) => Ok(info@),
        Err(e) => Err(e@),
    }
}

// ─── Parsing ──────────────────────────────────────────────────────────────

/// The trimmed lines of `s`.
fn lines_of(s: &str) -> (r: Vec<Vec<char>>)
    ensures
        text::texts(r@) == trimmed_lines(s@),
{
    let pieces = text::split_chars(&text::chars_of(s), '\n');
    let ghost split = text::split(s@, '\n');
    proof {
        text::lemma_split_nonempty(s@, '\n');
        assert(split.last() == pieces@.last()@);
    }
    let mut count = pieces.len();
    if pieces[count - 1].len() == 0 {
        count -= 1;
    }
    let ghost kept = split.take(count as int);
    let mut lines: Vec<Vec<char>> = Vec::new();
    let mut i: usize = 0;
    while i < count
        invariant
            i <= count <= pieces@.len(),
            split == text::texts(pieces@),
            text::texts(lines@) == split.take(i as int).map_values(
                |line: Seq<char>| text::trim(line),
            ),
        decreases count - i,
    {
        let ghost before = text::texts(lines@);
        assert(split[i as int] == pieces@[i as int]@);
        assert(split.take(i + 1) =~= split.take(i as int).push(split[i as int]));
        let line = text::trimmed(&pieces[i]);
        let ghost trimmed = line@;
        lines.push(line);
        assert(text::texts(lines@) =~= before.push(trimmed));
        assert(text::texts(lines@) =~= split.take(i + 1).map_values(
            |line: Seq<char>| text::trim(line),
        ));
        i += 1;
    }
    proof {
        if count == split.len() {
            assert(kept =~= split);
        } else {
            assert(kept =~= split.drop_last());
        }
    }
    lines
}

/// Whether `line` begins with `prefix`.
fn starts_with(line: &Vec<char>, prefix: &str) -> (r: bool)
    ensures
        r == prefix@.is_prefix_of(line@),
{
    let n = text::chars_of(prefix).len();
    if line.len() < n {
        return false;
    }
    let head = text::string_of(line, 0, n);
    text::str_eq(head.as_str(), prefix)
}

fn find_magic(lines: &Vec<Vec<char>>) -> (r: usize)
    ensures
        r == first_where(text::texts(lines@), |l: Seq<char>| is_magic(l), 0),
        r <= lines@.len(),
{
    let ghost all = text::texts(lines@);
    let ghost p = |l: Seq<char>| is_magic(l);
    let mut i: usize = 0;
    while i < lines.len()
        invariant
            i <= lines@.len(),
            all == text::texts(lines@),
            p == |l: Seq<char>| is_magic(l),
            first_where(all, p, 0) == first_where(all, p, i as int),
        decreases lines@.len() - i,
    {
        assert(all[i as int] == lines@[i as int]@);
        if starts_with(&lines[i], "ESP-CSI-CLI/") {
            return i;
        }
        i += 1;
    }
    i
}

fn find_end(lines: &Vec<Vec<char>>, from: usize) -> (r: usize)
    requires
        from <= lines@.len(),
    ensures
        r == first_where(text::texts(lines@), |l: Seq<char>| is_end(l), from as int),
        from <= r <= lines@.len(),
{
    let ghost all = text::texts(lines@);
    let ghost p = |l: Seq<char>| is_end(l);
    let mut i: usize = from;
    while i < lines.len()
        invariant
            from <= i <= lines@.len(),
            all == text::texts(lines@),
            p == |l: Seq<char>| is_end(l),
            first_where(all, p, from as int) == first_where(all, p, i as int),
        decreases lines@.len() - i,
    {
        assert(all[i as int] == lines@[i as int]@);
        let line = text::string_of(&lines[i], 0, lines[i].len());
        assert(line@ =~= all[i as int]);
        if text::str_eq(line.as_str(), "END-INFO") {
            return i;
        }
        i += 1;
    }
    i
}

/// The entries of a comma-separated list.
fn features_of(value: &Vec<char>) -> (r: Vec<String>)
    ensures
        text::strings(r@) == feature_list(value@),
{
    let pieces = text::split_chars(value, ',');
    let ghost split = text::split(value@, ',');
    let ghost trimmed = split.map_values(|s: Seq<char>| text::trim(s));
    let ghost kept = |s: Seq<char>| s.len() > 0;
    let mut out: Vec<String> = Vec::new();
    let mut i: usize = 0;
    proof {
        reveal(Seq::filter);
        assert(trimmed.take(0).filter(kept) =~= Seq::empty());
        assert(text::strings(out@) =~= Seq::empty());
    }
    while i < pieces.len()
        invariant
            i <= pieces@.len(),
            split == text::texts(pieces@),
            trimmed == split.map_values(|s: Seq<char>| text::trim(s)),
            kept == |s: Seq<char>| s.len() > 0,
            text::strings(out@) == trimmed.take(i as int).filter(kept),
        decreases pieces@.len() - i,
    {
        let ghost before = text::strings(out@);
        let piece = text::trimmed(&pieces[i]);
        proof {
            reveal(Seq::filter);
            assert(split[i as int] == pieces@[i as int]@);
            assert(trimmed[i as int] == piece@);
            assert(trimmed.take(i + 1).drop_last() =~= trimmed.take(i as int));
            assert(trimmed.take(i + 1).last() == piece@);
        }
        if piece.len() > 0 {
            let feature = text::string_of(&piece, 0, piece.len());
            assert(feature@ =~= piece@);
            out.push(feature);
            assert(text::strings(out@) =~= before.push(piece@));
        }
        i += 1;
    }
    assert(trimmed.take(pieces@.len() as int) =~= trimmed);
    out
}

/// Take one `key=value` line into the identification.
fn take_line(info: &mut DeviceInfo, line: &Vec<char>)
    ensures
        final(info)@ == with_line(old(info)@, line@),
{
    let i = text::position_of(line, '=');
    if i >= line.len() {
        return;
    }
    let key = text::string_of(line, 0, i);
    let value = text::string_of(line, i + 1, line.len());
    assert(key@ =~= line@.take(i as int));
    assert(value@ =~= line@.skip(i + 1));
    if text::str_eq(key.as_str(), "name") {
        info.name = Some(value);
    } else if text::str_eq(key.as_str(), "version") {
        info.version = Some(value);
    } else if text::str_eq(key.as_str(), "chip") {
        info.chip = Some(value);
    } else if text::str_eq(key.as_str(), "mac") {
        info.mac = Some(value);
    } else if text::str_eq(key.as_str(), "protocol") {
        info.protocol = text::parse_u32(&text::chars_of(value.as_str()));
    } else if text::str_eq(key.as_str(), "features") {
        info.features = features_of(&text::chars_of(value.as_str()));
    }
}

/// Parse the identification block out of a text.
pub fn parse_info_text(s: &str) -> (r: Result<DeviceInfo, String>)
    ensures
        info_outcome(r) == parsed_text(s@),
{
    let lines = lines_of(s);
    let ghost all = text::texts(lines@);
    let start = find_magic(&lines);
    if start >= lines.len() {
        return Err(
            "info magic prefix 'ESP-CSI-CLI/' not seen — firmware is not esp-csi-cli-rs".to_string(),
        );
    }
    let end = find_end(&lines, start);
    if end >= lines.len() {
        return Err("END-INFO sentinel not seen in info block".to_string());
    }
    proof {
        lemma_first_where(all, |l: Seq<char>| is_magic(l), 0);
        lemma_first_where(all, |l: Seq<char>| is_end(l), start as int);
        assert(all[start as int] == lines@[start as int]@);
        reveal_strlit("ESP-CSI-CLI/");
        reveal_strlit("END-INFO");
        if start == end {
            assert(is_magic(all[start as int]) && is_end(all[start as int]));
            assert("END-INFO"@.len() == 8);
        }
    }
    let version = text::string_of(&lines[start], 12, lines[start].len());
    assert(version@ =~= all[start as int].skip("ESP-CSI-CLI/"@.len() as int));
    let mut info = DeviceInfo {
        banner_version: version,
        name: None,
        version: None,
        chip: None,
        mac: None,
        protocol: None,
        features: Vec::new(),
    };
    let ghost banner = banner_only(version@);
    assert(info@ =~= banner);
    let ghost body = all.subrange(start + 1, end as int);
    let mut i: usize = start + 1;
    assert(body.take(0) =~= Seq::empty());
    while i < end
        invariant
            start < i <= end < lines@.len(),
            all == text::texts(lines@),
            body == all.subrange(start + 1, end as int),
            info@ == with_lines(banner, body.take(i - start - 1)),
        decreases end - i,
    {
        assert(all[i as int] == lines@[i as int]@);
        assert(body.take(i - start).drop_last() =~= body.take(i - start - 1));
        assert(body.take(i - start).last() == lines@[i as int]@);
        take_line(&mut info, &lines[i]);
        i += 1;
    }
    assert(body.take(end - start - 1) =~= body);
    Ok(info)
}

/// What the first line with a property is.
pub proof fn lemma_first_where(lines: Seq<Seq<char>>, p: spec_fn(Seq<char>) -> bool, from: int)
    requires
        0 <= from <= lines.len(),
    ensures
        from <= first_where(lines, p, from) <= lines.len(),
        first_where(lines, p, from) < lines.len() ==> p(lines[first_where(lines, p, from)]),
        forall|i: int| from <= i < first_where(lines, p, from) ==> !p(#[trigger] lines[i]),
    decreases lines.len() - from,
{
    if from < lines.len() && !p(lines[from]) {
        lemma_first_where(lines, p, from + 1);
    }
}

/// Parse the identification block that the firmware prints in answer to `info`: it
/// begins with `ESP-CSI-CLI/<version>`, ends with `END-INFO`, and has `key=value`
/// lines in between.
pub fn parse_info_block(buf: &[u8]) -> (r: Result<DeviceInfo, String>)
    ensures
        info_outcome(r) == parsed_text(utf8_lossy(buf@)),
        vstd::utf8::valid_utf8(buf@) ==> info_outcome(r) == parsed_text(
            vstd::utf8::decode_utf8(buf@),
        ),
{
    let decoded = lossy_text(buf);
    parse_info_text(decoded.as_str())
}

// ─── Laws ─────────────────────────────────────────────────────────────────

/// A complete block is found wherever it stands: what comes before its magic line and
/// behind its end line does not matter.
pub proof fn law_block_is_found(
    before: Seq<Seq<char>>,
    version: Seq<char>,
    body: Seq<Seq<char>>,
    behind: Seq<Seq<char>>,
)
    requires
        forall|i: int| 0 <= i < before.len() ==> !is_magic(#[trigger] before[i]),
        forall|i: int| 0 <= i < body.len() ==> !is_end(#[trigger] body[i]),
    ensures
        parsed_lines(
            before.push("ESP-CSI-CLI/"@ + version) + body.push("END-INFO"@) + behind,
        ) == Ok::<DeviceInfoView, Seq<char>>(with_lines(banner_only(version), body)),
{
    let magic = "ESP-CSI-CLI/"@ + version;
    let lines = before.push(magic) + body.push("END-INFO"@) + behind;
    let start = before.len() as int;
    let end = start + 1 + body.len();
    assert(is_magic(magic)) by {
        assert("ESP-CSI-CLI/"@ =~= magic.subrange(0, "ESP-CSI-CLI/"@.len() as int));
    }
    assert(!is_end(magic)) by {
        reveal_strlit("ESP-CSI-CLI/");
        reveal_strlit("END-INFO");
        if is_end(magic) {
            assert(magic.len() == 8);
        }
    }
    let p = |l: Seq<char>| is_magic(l);
    let q = |l: Seq<char>| is_end(l);
    assert(lines[start] == magic);
    assert(lines[end] == "END-INFO"@);
    lemma_first_where(lines, p, 0);
    assert(first_where(lines, p, 0) == start) by {
        let found = first_where(lines, p, 0);
        if found < start {
            assert(lines[found] == before[found]);
        }
        if found > start {
            assert(!p(lines[start]));
        }
    }
    lemma_first_where(lines, q, start);
    assert(first_where(lines, q, start) == end) by {
        let found = first_where(lines, q, start);
        if start < found < end {
            assert(lines[found] == body[found - start - 1]);
        }
        if found > end {
            assert(!q(lines[end]));
        }
    }
    assert(lines.subrange(start + 1, end) =~= body);
    assert(magic.skip("ESP-CSI-CLI/"@.len() as int) =~= version);
}

proof fn lemma_key_position(key: Seq<char>, value: Seq<char>)
    requires
        !key.contains('='),
    ensures
        text::position(key + seq!['='] + value, '=') == key.len(),
    decreases key.len(),
{
    let line = key + seq!['='] + value;
    if key.len() > 0 {
        assert(key[0] != '=');
        assert(line[0] == key[0]);
        let rest = key.skip(1);
        assert(!rest.contains('=')) by {
            if rest.contains('=') {
                let i = choose|i: int| 0 <= i < rest.len() && rest[i] == '=';
                assert(key[i + 1] == '=');
            }
        }
        lemma_key_position(rest, value);
        assert(line.skip(1) =~= rest + seq!['='] + value);
    } else {
        assert(line[0] == '=');
    }
}

/// Every field is read from its own line, whatever its value, equals signs included;
/// the other fields keep what they held.
pub proof fn law_field_is_read(info: DeviceInfoView, value: Seq<char>)
    ensures
        with_line(info, "name"@ + seq!['='] + value) == (DeviceInfoView {
            name: Some(value),
            ..info
        }),
        with_line(info, "version"@ + seq!['='] + value) == (DeviceInfoView {
            version: Some(value),
            ..info
        }),
        with_line(info, "chip"@ + seq!['='] + value) == (DeviceInfoView {
            chip: Some(value),
            ..info
        }),
        with_line(info, "mac"@ + seq!['='] + value) == (DeviceInfoView { mac: Some(value), ..info }),
        with_line(info, "protocol"@ + seq!['='] + value) == (DeviceInfoView {
            protocol: text::parsed_u32(value),
            ..info
        }),
        with_line(info, "features"@ + seq!['='] + value) == (DeviceInfoView {
            features: feature_list(value),
            ..info
        }),
{
    reveal_strlit("name");
    reveal_strlit("version");
    reveal_strlit("chip");
    reveal_strlit("mac");
    reveal_strlit("protocol");
    reveal_strlit("features");
    assert("name"@ != "mac"@);
    lemma_keyed(info, "name"@, value);
    lemma_keyed(info, "version"@, value);
    lemma_keyed(info, "chip"@, value);
    lemma_keyed(info, "mac"@, value);
    lemma_keyed(info, "protocol"@, value);
    lemma_keyed(info, "features"@, value);
    assert("name"@[0] != "chip"@[0]);
    assert("version"@.len() == 7);
    assert("protocol"@[0] != "features"@[0]);
}

proof fn lemma_keyed(info: DeviceInfoView, key: Seq<char>, value: Seq<char>)
    requires
        !key.contains('='),
    ensures
        ({
            let line = key + seq!['='] + value;
            let i = text::position(line, '=');
            &&& i < line.len()
            &&& line.take(i) == key
            &&& line.skip(i + 1) == value
        }),
{
    let line = key + seq!['='] + value;
    lemma_key_position(key, value);
    assert(line.take(key.len() as int) =~= key);
    assert(line.skip(key.len() as int + 1) =~= value);
}

/// A line without an equals sign, or with a key that is not known, adds nothing.
pub proof fn law_unknown_lines_are_ignored(info: DeviceInfoView, line: Seq<char>)
    requires
        ({
            let key = line.take(text::position(line, '='));
            !line.contains('=') || !(key == "name"@ || key == "version"@ || key == "chip"@ || key
                == "mac"@ || key == "protocol"@ || key == "features"@)
        }),
    ensures
        with_line(info, line) == info,
{
    if !line.contains('=') {
        lemma_no_position(line);
    }
}

proof fn lemma_no_position(line: Seq<char>)
    requires
        !line.contains('='),
    ensures
        text::position(line, '=') == line.len(),
    decreases line.len(),
{
    if line.len() > 0 {
        assert(line[0] != '=');
        assert(!line.skip(1).contains('=')) by {
            if line.skip(1).contains('=') {
                let i = choose|i: int| 0 <= i < line.len() - 1 && line.skip(1)[i] == '=';
                assert(line[i + 1] == '=');
            }
        }
        lemma_no_position(line.skip(1));
    }
}

/// A feature list is read back from its comma-separated form.
pub proof fn law_feature_list_round_trip(features: Seq<Seq<char>>)
    requires
        forall|i: int|
            0 <= i < features.len() ==> (#[trigger] features[i]).len() > 0 && !features[i].contains(
                ',',
            ) && text::trim(features[i]) == features[i],
    ensures
        feature_list(text::join(features, seq![','])) == features,
{
    let kept = |s: Seq<char>| s.len() > 0;
    if features.len() == 0 {
        let nothing = text::split(Seq::<char>::empty(), ',').map_values(
            |s: Seq<char>| text::trim(s),
        );
        assert(nothing =~= seq![Seq::<char>::empty()]);
        reveal_with_fuel(Seq::filter, 2);
        assert(nothing.drop_last() =~= Seq::empty());
        assert(nothing.filter(kept) =~= Seq::empty());
        assert(features =~= Seq::empty());
    } else {
        text::law_join_split(features, ',');
        let trimmed = features.map_values(|s: Seq<char>| text::trim(s));
        assert(trimmed =~= features);
        lemma_filter_all(features, kept);
    }
}

proof fn lemma_filter_all(list: Seq<Seq<char>>, p: spec_fn(Seq<char>) -> bool)
    requires
        forall|i: int| 0 <= i < list.len() ==> p(#[trigger] list[i]),
    ensures
        list.filter(p) == list,
    decreases list.len(),
{
    reveal(Seq::filter);
    if list.len() > 0 {
        let earlier = list.drop_last();
        assert forall|i: int| 0 <= i < earlier.len() implies p(#[trigger] earlier[i]) by {
            assert(earlier[i] == list[i]);
        }
        lemma_filter_all(earlier, p);
        assert(p(list[list.len() - 1]));
        assert(list.filter(p) =~= list);
    } else {
        assert(list.filter(p) =~= list);
    }
}

/// The lines of a text that is put behind a line end are added to those before.
proof fn lemma_lines_concat(a: Seq<char>, b: Seq<char>)
    requires
        a.len() == 0 || a.last() == '\n',
    ensures
        trimmed_lines(a + b) == trimmed_lines(a) + trimmed_lines(b),
{
    text::lemma_split_nonempty(b, '\n');
    if a.len() == 0 {
        assert(a =~= Seq::empty());
        assert(trimmed_lines(a) =~= Seq::empty());
        assert(a + b =~= b);
        assert(trimmed_lines(a + b) =~= trimmed_lines(a) + trimmed_lines(b));
    } else {
        let body = a.drop_last();
        assert(body.push('\n') =~= a);
        text::lemma_split_concat(body, b, '\n');
        let first = text::split(body, '\n');
        let second = text::split(b, '\n');
        assert(text::split(a, '\n') == first.push(Seq::empty()));
        assert(first.push(Seq::empty()).drop_last() =~= first);
        assert((first + second).last() == second.last());
        if second.last().len() == 0 {
            assert((first + second).drop_last() =~= first + second.drop_last());
        }
        assert(trimmed_lines(a + b) =~= trimmed_lines(a) + trimmed_lines(b));
    }
}

/// Lines without a magic one before a complete block, and any lines behind it, leave
/// the identification as it is.
proof fn lemma_lines_around(
    before: Seq<Seq<char>>,
    block: Seq<Seq<char>>,
    behind: Seq<Seq<char>>,
)
    requires
        parsed_lines(block) is Ok,
        forall|i: int| 0 <= i < before.len() ==> !is_magic(#[trigger] before[i]),
    ensures
        parsed_lines(before + block + behind) == parsed_lines(block),
{
    let lines = before + block + behind;
    let n = before.len() as int;
    let p = |l: Seq<char>| is_magic(l);
    let q = |l: Seq<char>| is_end(l);
    let start = first_where(block, p, 0);
    let end = first_where(block, q, start);
    lemma_first_where(block, p, 0);
    lemma_first_where(block, q, start);
    lemma_first_where(lines, p, 0);
    assert(lines[n + start] == block[start]);
    assert(lines[n + end] == block[end]);
    assert(first_where(lines, p, 0) == n + start) by {
        let found = first_where(lines, p, 0);
        if found < n {
            assert(lines[found] == before[found]);
        } else if found < n + start {
            assert(lines[found] == block[found - n]);
        }
        if found > n + start {
            assert(!p(lines[n + start]));
        }
    }
    lemma_first_where(lines, q, n + start);
    assert(first_where(lines, q, n + start) == n + end) by {
        let found = first_where(lines, q, n + start);
        if n + start <= found < n + end {
            assert(lines[found] == block[found - n]);
        }
        if found > n + end {
            assert(!q(lines[n + end]));
        }
    }
    if start < end {
        assert(lines.subrange(n + start + 1, n + end) =~= block.subrange(start + 1, end));
    } else {
        reveal_strlit("ESP-CSI-CLI/");
        reveal_strlit("END-INFO");
        assert(is_magic(block[start]) && is_end(block[start]));
    }
}

/// What stands around a complete block has no effect: neither text before it, of which
/// no line begins like a magic one, nor any text behind it, further end lines and
/// `key=value` lines included.
pub proof fn law_text_around_the_block(before: Seq<char>, block: Seq<char>, behind: Seq<char>)
    requires
        parsed_text(block) is Ok,
        block.last() == '\n',
        before.len() == 0 || before.last() == '\n',
        forall|i: int|
            0 <= i < trimmed_lines(before).len() ==> !is_magic(#[trigger] trimmed_lines(before)[i]),
    ensures
        parsed_text(before + block + behind) == parsed_text(block),
{
    if block.len() == 0 {
        assert(block =~= Seq::empty());
        assert(trimmed_lines(block) =~= Seq::empty());
    }
    assert((before + block).last() == block.last());
    lemma_lines_concat(before, block);
    lemma_lines_concat(before + block, behind);
    lemma_lines_around(trimmed_lines(before), trimmed_lines(block), trimmed_lines(behind));
}

/// Texts are encoded one behind the other.
pub proof fn lemma_encode_concat(a: Seq<char>, b: Seq<char>)
    ensures
        vstd::utf8::encode_utf8(a + b) == vstd::utf8::encode_utf8(a) + vstd::utf8::encode_utf8(b),
    decreases a.len(),
{
    if a.len() == 0 {
        assert(a + b =~= b);
        assert(vstd::utf8::encode_utf8(a) =~= Seq::empty());
        assert(vstd::utf8::encode_utf8(b) =~= Seq::<u8>::empty() + vstd::utf8::encode_utf8(b));
    } else {
        lemma_encode_concat(a.drop_first(), b);
        assert((a + b).drop_first() =~= a.drop_first() + b);
        assert(vstd::utf8::encode_utf8(a + b) =~= vstd::utf8::encode_utf8(a)
            + vstd::utf8::encode_utf8(b));
    }
}

proof fn lemma_decode_concat(a: Seq<u8>, b: Seq<u8>)
    requires
        vstd::utf8::valid_utf8(a),
        vstd::utf8::valid_utf8(b),
    ensures
        vstd::utf8::valid_utf8(a + b),
        vstd::utf8::decode_utf8(a + b) == vstd::utf8::decode_utf8(a) + vstd::utf8::decode_utf8(b),
{
    let x = vstd::utf8::decode_utf8(a);
    let y = vstd::utf8::decode_utf8(b);
    vstd::utf8::decode_utf8_encode_utf8(a);
    vstd::utf8::decode_utf8_encode_utf8(b);
    lemma_encode_concat(x, y);
    vstd::utf8::encode_utf8_valid_utf8(x + y);
    vstd::utf8::encode_utf8_decode_utf8(x + y);
}

/// The same of bytes that are UTF-8: the block is read alike, whatever stands before
/// and behind it on the wire.
pub proof fn law_bytes_around_the_block(before: Seq<u8>, block: Seq<u8>, behind: Seq<u8>)
    requires
        vstd::utf8::valid_utf8(before),
        vstd::utf8::valid_utf8(block),
        vstd::utf8::valid_utf8(behind),
        ({
            let lead = vstd::utf8::decode_utf8(before);
            let text = vstd::utf8::decode_utf8(block);
            &&& parsed_text(text) is Ok
            &&& text.last() == '\n'
            &&& lead.len() == 0 || lead.last() == '\n'
            &&& forall|i: int|
                0 <= i < trimmed_lines(lead).len() ==> !is_magic(#[trigger] trimmed_lines(lead)[i])
        }),
    ensures
        vstd::utf8::valid_utf8(before + block + behind),
        parsed_text(vstd::utf8::decode_utf8(before + block + behind)) == parsed_text(
            vstd::utf8::decode_utf8(block),
        ),
{
    lemma_decode_concat(before, block);
    lemma_decode_concat(before + block, behind);
    law_text_around_the_block(
        vstd::utf8::decode_utf8(before),
        vstd::utf8::decode_utf8(block),
        vstd::utf8::decode_utf8(behind),
    );
}

// ─── From the wire to the identification ──────────────────────────────────

/// Lines as they are sent: each followed by a line end.
pub open spec fn sent(lines: Seq<Seq<char>>) -> Seq<char>
    decreases lines.len(),
{
    if lines.len() == 0 {
        Seq::empty()
    } else {
        sent(lines.drop_last()) + lines.last().push('\n')
    }
}

/// Lines that are sent are read back, without the white space around them; a last line that
/// is not ended yet counts, and an empty rest does not.
pub proof fn law_lines_are_read_back(lines: Seq<Seq<char>>, rest: Seq<char>)
    requires
        forall|i: int| 0 <= i < lines.len() ==> !(#[trigger] lines[i]).contains('\n'),
        !rest.contains('\n'),
    ensures
        trimmed_lines(sent(lines)).len() == lines.len(),
        forall|i: int|
            0 <= i < lines.len() ==> #[trigger] trimmed_lines(sent(lines))[i] == text::trim(
                lines[i],
            ),
        rest.len() > 0 ==> trimmed_lines(sent(lines) + rest) == trimmed_lines(sent(lines)).push(
            text::trim(rest),
        ),
{
    lemma_sent(lines);
    lemma_lines_concat(sent(lines), rest);
    text::lemma_split_single(rest, '\n');
    if rest.len() > 0 {
        assert(trimmed_lines(rest) =~= seq![text::trim(rest)]);
        assert(trimmed_lines(sent(lines)) + seq![text::trim(rest)] =~= trimmed_lines(
            sent(lines),
        ).push(text::trim(rest)));
    }
}

proof fn lemma_sent(lines: Seq<Seq<char>>)
    requires
        forall|i: int| 0 <= i < lines.len() ==> !(#[trigger] lines[i]).contains('\n'),
    ensures
        sent(lines).len() == 0 || sent(lines).last() == '\n',
        trimmed_lines(sent(lines)) == lines.map_values(|l: Seq<char>| text::trim(l)),
    decreases lines.len(),
{
    if lines.len() == 0 {
        assert(trimmed_lines(sent(lines)) =~= Seq::empty());
        assert(lines.map_values(|l: Seq<char>| text::trim(l)) =~= Seq::empty());
    } else {
        let head = lines.drop_last();
        let last = lines.last();
        assert forall|i: int| 0 <= i < head.len() implies !(#[trigger] head[i]).contains('\n') by {
            assert(head[i] == lines[i]);
        }
        lemma_sent(head);
        assert(!lines[lines.len() - 1].contains('\n'));
        text::lemma_split_single(last, '\n');
        let ended = last.push('\n');
        assert(ended.drop_last() =~= last);
        assert(text::split(ended, '\n') == seq![last].push(Seq::empty()));
        assert(seq![last].push(Seq::<char>::empty()).drop_last() =~= seq![last]);
        assert(trimmed_lines(ended) =~= seq![text::trim(last)]);
        lemma_lines_concat(sent(head), ended);
        assert(trimmed_lines(sent(lines)) =~= lines.map_values(|l: Seq<char>| text::trim(l)));
    }
}

/// The block with which the firmware introduces itself.
pub open spec fn block(info: DeviceInfoView) -> Seq<Seq<char>> {
    seq![
        "ESP-CSI-CLI/"@ + info.banner_version,
        "name"@ + seq!['='] + info.name->0,
        "version"@ + seq!['='] + info.version->0,
        "chip"@ + seq!['='] + info.chip->0,
        "mac"@ + seq!['='] + info.mac->0,
        "protocol"@ + seq!['='] + text::decimal(info.protocol->0 as nat),
        "features"@ + seq!['='] + text::join(info.features, seq![',']),
        "END-INFO"@,
    ]
}

/// A value that a line can carry: no line end in it, and no white space at its end.
pub open spec fn fits_a_line(value: Seq<char>) -> bool {
    !value.contains('\n') && (value.len() > 0 ==> !text::is_blank(value.last()))
}

/// An identification that a block can carry.
pub open spec fn can_be_sent(info: DeviceInfoView) -> bool {
    &&& info.name is Some && info.version is Some && info.chip is Some && info.mac is Some
    &&& info.protocol is Some
    &&& fits_a_line(info.banner_version) && fits_a_line(info.name->0) && fits_a_line(
        info.version->0,
    ) && fits_a_line(info.chip->0) && fits_a_line(info.mac->0)
    &&& forall|i: int|
        0 <= i < info.features.len() ==> fits_a_line(#[trigger] info.features[i])
            && info.features[i].len() > 0 && !text::is_blank(info.features[i][0])
            && !info.features[i].contains(',')
}

/// What the firmware says of itself is what is read: a block gives back every field that it
/// was written with, whatever comes behind it and whatever lines without a banner come
/// before it.
pub proof fn law_identification_is_read_back(
    s: &str,
    r: Result<DeviceInfo, String>,
    info: DeviceInfoView,
    before: Seq<Seq<char>>,
    behind: Seq<char>,
)
    requires
        call_ensures(parse_info_text, (s,), r),
        can_be_sent(info),
        forall|i: int|
            0 <= i < before.len() ==> !(#[trigger] before[i]).contains('\n') && !is_magic(
                text::trim(before[i]),
            ),
        s@ == sent(before) + sent(block(info)) + behind,
    ensures
        r is Ok,
        (r->Ok_0)@.banner_version == info.banner_version,
        (r->Ok_0)@.name == info.name,
        (r->Ok_0)@.version == info.version,
        (r->Ok_0)@.chip == info.chip,
        (r->Ok_0)@.mac == info.mac,
        (r->Ok_0)@.protocol == info.protocol,
        (r->Ok_0)@.features == info.features,
{
    lemma_block_parses(info);
    lemma_block_lines(info);
    lemma_sent(before);
    lemma_sent(block(info));
    let lead = trimmed_lines(sent(before));
    assert forall|i: int| 0 <= i < lead.len() implies !is_magic(#[trigger] lead[i]) by {
        assert(lead[i] == text::trim(before[i]));
    }
    law_text_around_the_block(sent(before), sent(block(info)), behind);
}

/// A line that begins and ends with something visible is trimmed already.
proof fn lemma_trimmed_already(line: Seq<char>)
    requires
        line.len() > 0,
        !text::is_blank(line[0]),
        !text::is_blank(line.last()),
    ensures
        text::trim(line) == line,
{
}

proof fn lemma_line_of(key: Seq<char>, value: Seq<char>)
    requires
        key.len() > 0,
        !text::is_blank(key[0]),
        !key.contains('\n'),
        fits_a_line(value),
    ensures
        text::trim(key + seq!['='] + value) == key + seq!['='] + value,
        !(key + seq!['='] + value).contains('\n'),
{
    let line = key + seq!['='] + value;
    assert(line[0] == key[0]);
    if value.len() > 0 {
        assert(line.last() == value.last());
    } else {
        assert(line.last() == '=');
    }
    lemma_trimmed_already(line);
    if line.contains('\n') {
        let i = choose|i: int| 0 <= i < line.len() && line[i] == '\n';
        if i < key.len() {
            assert(key[i] == '\n');
        } else if i > key.len() {
            assert(value[i - key.len() - 1] == '\n');
        }
    }
}

proof fn lemma_digits_fit(n: nat)
    ensures
        fits_a_line(text::decimal(n)),
    decreases n,
{
    reveal(text::one_line);
    text::lemma_one_line_decimal(n);
    text::law_decimal_is_base_ten(n / 10, n % 10);
    if n >= 10 {
        assert(10 * (n / 10) + n % 10 == n);
        assert(text::decimal(n).last() == text::decimal(n % 10)[0]);
    }
}

proof fn lemma_list_fits(features: Seq<Seq<char>>)
    requires
        forall|i: int|
            0 <= i < features.len() ==> fits_a_line(#[trigger] features[i]) && features[i].len() > 0,
    ensures
        fits_a_line(text::join(features, seq![','])),
        features.len() > 0 ==> text::join(features, seq![',']).len() > 0,
    decreases features.len(),
{
    if features.len() == 1 {
        assert(fits_a_line(features[0]));
    } else if features.len() > 1 {
        let head = features.drop_last();
        let last = features.last();
        assert forall|i: int| 0 <= i < head.len() implies fits_a_line(#[trigger] head[i])
            && head[i].len() > 0 by {
            assert(head[i] == features[i]);
        }
        lemma_list_fits(head);
        assert(fits_a_line(features[features.len() - 1]));
        let joined = text::join(features, seq![',']);
        let front = text::join(head, seq![',']);
        assert(joined == front + seq![','] + last);
        if joined.contains('\n') {
            let i = choose|i: int| 0 <= i < joined.len() && joined[i] == '\n';
            if i < front.len() {
                assert(front[i] == '\n');
            } else if i > front.len() {
                assert(last[i - front.len() - 1] == '\n');
            }
        }
        assert(joined.last() == last.last());
    }
}

proof fn lemma_keys()
    ensures
        "name"@.len() == 4 && !"name"@.contains('\n') && !text::is_blank("name"@[0]),
        "version"@.len() == 7 && !"version"@.contains('\n') && !text::is_blank("version"@[0]),
        "chip"@.len() == 4 && !"chip"@.contains('\n') && !text::is_blank("chip"@[0]),
        "mac"@.len() == 3 && !"mac"@.contains('\n') && !text::is_blank("mac"@[0]),
        "protocol"@.len() == 8 && !"protocol"@.contains('\n') && !text::is_blank("protocol"@[0]),
        "features"@.len() == 8 && !"features"@.contains('\n') && !text::is_blank("features"@[0]),
        "END-INFO"@.len() == 8 && !"END-INFO"@.contains('\n') && text::trim("END-INFO"@)
            == "END-INFO"@,
        "END-INFO"@[0] == 'E' && "name"@[0] == 'n' && "version"@[0] == 'v' && "chip"@[0] == 'c'
            && "mac"@[0] == 'm' && "protocol"@[0] == 'p' && "features"@[0] == 'f',
{
    reveal_strlit("name");
    reveal_strlit("version");
    reveal_strlit("chip");
    reveal_strlit("mac");
    reveal_strlit("protocol");
    reveal_strlit("features");
    reveal_strlit("END-INFO");
    lemma_trimmed_already("END-INFO"@);
}

proof fn lemma_banner_line(version: Seq<char>)
    requires
        fits_a_line(version),
    ensures
        text::trim("ESP-CSI-CLI/"@ + version) == "ESP-CSI-CLI/"@ + version,
        !("ESP-CSI-CLI/"@ + version).contains('\n'),
{
    reveal_strlit("ESP-CSI-CLI/");
    let line = "ESP-CSI-CLI/"@ + version;
    assert(line[0] == 'E');
    if version.len() > 0 {
        assert(line.last() == version.last());
    } else {
        assert(line.last() == '/');
    }
    lemma_trimmed_already(line);
    if line.contains('\n') {
        let i = choose|i: int| 0 <= i < line.len() && line[i] == '\n';
        if i >= 12 {
            assert(version[i - 12] == '\n');
        }
    }
}

/// The lines of a block are trimmed and whole.
proof fn lemma_block_lines(info: DeviceInfoView)
    requires
        can_be_sent(info),
    ensures
        forall|i: int| 0 <= i < 8 ==> !(#[trigger] block(info)[i]).contains('\n'),
        forall|i: int| 0 <= i < 8 ==> text::trim(#[trigger] block(info)[i]) == block(info)[i],
        sent(block(info)).len() > 0,
{
    lemma_keys();
    lemma_banner_line(info.banner_version);
    lemma_line_of("name"@, info.name->0);
    lemma_line_of("version"@, info.version->0);
    lemma_line_of("chip"@, info.chip->0);
    lemma_line_of("mac"@, info.mac->0);
    lemma_digits_fit(info.protocol->0 as nat);
    lemma_line_of("protocol"@, text::decimal(info.protocol->0 as nat));
    lemma_list_fits(info.features);
    lemma_line_of("features"@, text::join(info.features, seq![',']));
}

proof fn lemma_six_lines(
    info: DeviceInfoView,
    a: Seq<char>,
    b: Seq<char>,
    c: Seq<char>,
    d: Seq<char>,
    e: Seq<char>,
    f: Seq<char>,
)
    ensures
        with_lines(info, seq![a, b, c, d, e, f]) == with_line(
            with_line(with_line(with_line(with_line(with_line(info, a), b), c), d), e),
            f,
        ),
{
    let none = Seq::<Seq<char>>::empty();
    law_later_lines_come_on_top(info, none, a);
    law_later_lines_come_on_top(info, none.push(a), b);
    law_later_lines_come_on_top(info, none.push(a).push(b), c);
    law_later_lines_come_on_top(info, none.push(a).push(b).push(c), d);
    law_later_lines_come_on_top(info, none.push(a).push(b).push(c).push(d), e);
    law_later_lines_come_on_top(info, none.push(a).push(b).push(c).push(d).push(e), f);
    assert(seq![a, b, c, d, e, f] =~= none.push(a).push(b).push(c).push(d).push(e).push(f));
}

proof fn lemma_body_is_read(info: DeviceInfoView)
    requires
        can_be_sent(info),
    ensures
        with_lines(banner_only(info.banner_version), block(info).subrange(1, 7)) == info,
{
    let b = block(info);
    let i0 = banner_only(info.banner_version);
    let i1 = DeviceInfoView { name: info.name, ..i0 };
    let i2 = DeviceInfoView { version: info.version, ..i1 };
    let i3 = DeviceInfoView { chip: info.chip, ..i2 };
    let i4 = DeviceInfoView { mac: info.mac, ..i3 };
    let i5 = DeviceInfoView { protocol: info.protocol, ..i4 };
    assert(with_line(i0, b[1]) == i1) by {
        law_field_is_read(i0, info.name->0);
    }
    assert(with_line(i1, b[2]) == i2) by {
        law_field_is_read(i1, info.version->0);
    }
    assert(with_line(i2, b[3]) == i3) by {
        law_field_is_read(i2, info.chip->0);
    }
    assert(with_line(i3, b[4]) == i4) by {
        law_field_is_read(i3, info.mac->0);
    }
    assert(with_line(i4, b[5]) == i5) by {
        law_field_is_read(i4, text::decimal(info.protocol->0 as nat));
        text::law_decimal_round_trip(info.protocol->0);
    }
    assert(with_line(i5, b[6]) == info) by {
        law_field_is_read(i5, text::join(info.features, seq![',']));
        assert forall|i: int| 0 <= i < info.features.len() implies (
        #[trigger] info.features[i]).len() > 0 && !info.features[i].contains(',') && text::trim(
            info.features[i],
        ) == info.features[i] by {
            assert(fits_a_line(info.features[i]));
            lemma_trimmed_already(info.features[i]);
        }
        law_feature_list_round_trip(info.features);
    }
    lemma_six_lines(i0, b[1], b[2], b[3], b[4], b[5], b[6]);
    assert(b.subrange(1, 7) =~= seq![b[1], b[2], b[3], b[4], b[5], b[6]]);
}

proof fn lemma_block_parses(info: DeviceInfoView)
    requires
        can_be_sent(info),
    ensures
        parsed_text(sent(block(info))) == Ok::<DeviceInfoView, Seq<char>>(info),
        sent(block(info)).last() == '\n',
{
    lemma_block_lines(info);
    let b = block(info);
    lemma_sent(b);
    assert(trimmed_lines(sent(b)) =~= b);
    lemma_keys();
    let body = b.subrange(1, 7);
    assert forall|i: int| 0 <= i < body.len() implies !is_end(#[trigger] body[i]) by {
        assert(body[i] == b[i + 1]);
        assert(body[i][0] != 'E');
    }
    law_block_is_found(Seq::empty(), info.banner_version, body, Seq::empty());
    assert(Seq::empty().push(b[0]) + body.push("END-INFO"@) + Seq::<Seq<char>>::empty() =~= b);
    lemma_body_is_read(info);
}

/// Lines are taken in order, each on top of those before.
pub proof fn law_later_lines_come_on_top(
    info: DeviceInfoView,
    lines: Seq<Seq<char>>,
    line: Seq<char>,
)
    ensures
        with_lines(info, Seq::empty()) == info,
        with_lines(info, lines.push(line)) == with_line(with_lines(info, lines), line),
{
    assert(lines.push(line).drop_last() =~= lines);
}

/// Without a banner there is no block, and without an end line behind the banner it is not
/// complete: each is refused with its own reason, and nothing else is.
pub proof fn law_incomplete_blocks_are_refused(s: &str, r: Result<DeviceInfo, String>, i: int)
    requires
        call_ensures(parse_info_text, (s,), r),
    ensures
        (forall|k: int| 0 <= k < trimmed_lines(s@).len() ==> !is_magic(#[trigger] trimmed_lines(s@)[k]))
            ==> r is Err && r->Err_0@
            == "info magic prefix 'ESP-CSI-CLI/' not seen — firmware is not esp-csi-cli-rs"@,
        0 <= i < trimmed_lines(s@).len() && is_magic(trimmed_lines(s@)[i]) && (forall|k: int|
            0 <= k < i ==> !is_magic(#[trigger] trimmed_lines(s@)[k])) && (forall|k: int|
            i < k < trimmed_lines(s@).len() ==> (#[trigger] trimmed_lines(s@)[k]) != "END-INFO"@)
            ==> r is Err && r->Err_0@ == "END-INFO sentinel not seen in info block"@,
        r is Err ==> r->Err_0@
            == "info magic prefix 'ESP-CSI-CLI/' not seen — firmware is not esp-csi-cli-rs"@
            || r->Err_0@ == "END-INFO sentinel not seen in info block"@,
{
    let lines = trimmed_lines(s@);
    let p = |l: Seq<char>| is_magic(l);
    let q = |l: Seq<char>| is_end(l);
    lemma_first_where(lines, p, 0);
    let start = first_where(lines, p, 0);
    lemma_first_where(lines, q, start);
    let end = first_where(lines, q, start);
    if start < lines.len() {
        assert(is_magic(lines[start]));
        if 0 <= i < lines.len() && is_magic(lines[i]) && (forall|k: int|
            0 <= k < i ==> !is_magic(#[trigger] lines[k])) {
            if start < i {
                assert(!is_magic(lines[start]));
            }
            if i < start {
                assert(!p(lines[i]));
            }
            if end < lines.len() {
                assert(is_end(lines[end]));
                reveal_strlit("ESP-CSI-CLI/");
                reveal_strlit("END-INFO");
                if end == start {
                    assert("END-INFO"@.len() == 8);
                }
            }
        }
    } else if 0 <= i < lines.len() {
        assert(!p(lines[i]));
    }
}

/// A line is a banner exactly if it is the magic prefix and something behind it.
pub proof fn law_banner_prefix(line: Seq<char>, version: Seq<char>)
    ensures
        is_magic("ESP-CSI-CLI/"@ + version),
        is_magic(line) ==> line == "ESP-CSI-CLI/"@ + line.skip(12),
{
    reveal_strlit("ESP-CSI-CLI/");
    let banner = "ESP-CSI-CLI/"@ + version;
    assert("ESP-CSI-CLI/"@ =~= banner.subrange(0, 12));
    if is_magic(line) {
        assert(line =~= "ESP-CSI-CLI/"@ + line.skip(12));
    }
}

/// A list of features is read entry by entry: a comma separates, white space around an entry
/// does not matter, and an empty entry is none.
pub proof fn law_features_are_entries(a: Seq<char>, b: Seq<char>)
    ensures
        feature_list(a.push(',') + b) == feature_list(a) + feature_list(b),
        !a.contains(',') && text::trim(a).len() > 0 ==> feature_list(a) == seq![text::trim(a)],
        !a.contains(',') && text::trim(a).len() == 0 ==> feature_list(a) == Seq::<
            Seq<char>,
        >::empty(),
{
    let kept = |s: Seq<char>| s.len() > 0;
    let trim = |s: Seq<char>| text::trim(s);
    text::lemma_split_concat(a, b, ',');
    let x = text::split(a, ',');
    let y = text::split(b, ',');
    assert((x + y).map_values(trim) =~= x.map_values(trim) + y.map_values(trim));
    lemma_filter_add(x.map_values(trim), y.map_values(trim), kept);
    if !a.contains(',') {
        text::lemma_split_single(a, ',');
        let one = x.map_values(trim);
        assert(one =~= seq![text::trim(a)]);
        reveal_with_fuel(Seq::filter, 2);
        assert(one.drop_last() =~= Seq::empty());
        assert(one.last() == text::trim(a));
        if text::trim(a).len() > 0 {
            assert(one.filter(kept) =~= seq![text::trim(a)]);
        } else {
            assert(one.filter(kept) =~= Seq::empty());
        }
    }
}

proof fn lemma_filter_add(a: Seq<Seq<char>>, b: Seq<Seq<char>>, p: spec_fn(Seq<char>) -> bool)
    ensures
        (a + b).filter(p) == a.filter(p) + b.filter(p),
    decreases b.len(),
{
    reveal(Seq::filter);
    if b.len() == 0 {
        assert(a + b =~= a);
        assert(b.filter(p) =~= Seq::empty());
        assert(a.filter(p) + b.filter(p) =~= a.filter(p));
    } else {
        let head = b.drop_last();
        lemma_filter_add(a, head, p);
        assert((a + b).drop_last() =~= a + head);
        assert((a + b).last() == b.last());
        assert((a + b).filter(p) =~= a.filter(p) + b.filter(p));
    }
}

/// Bytes that are UTF-8 are read as the text that they encode.
pub proof fn law_bytes_are_read_as_text(
    buf: &[u8],
    s: &str,
    r: Result<DeviceInfo, String>,
    t: Result<DeviceInfo, String>,
)
    requires
        call_ensures(parse_info_block, (buf,), r),
        call_ensures(parse_info_text, (s,), t),
        buf@ == vstd::utf8::encode_utf8(s@),
    ensures
        r is Ok == t is Ok,
        r is Ok ==> (r->Ok_0)@ == (t->Ok_0)@,
        r is Err ==> r->Err_0@ == t->Err_0@,
{
    vstd::utf8::encode_utf8_valid_utf8(s@);
    vstd::utf8::encode_utf8_decode_utf8(s@);
}

/// The same from the wire: a block that arrives as bytes is read as it was sent.
pub proof fn lemma_sent_block(info: DeviceInfoView)
    requires
        can_be_sent(info),
    ensures
        vstd::utf8::valid_utf8(vstd::utf8::encode_utf8(sent(block(info)))),
        parsed_text(
            vstd::utf8::decode_utf8(vstd::utf8::encode_utf8(sent(block(info)))),
        ) == Ok::<DeviceInfoView, Seq<char>>(info),
{
    lemma_block_parses(info);
    vstd::utf8::encode_utf8_valid_utf8(sent(block(info)));
    vstd::utf8::encode_utf8_decode_utf8(sent(block(info)));
}

/// Any block, line by line: what stands between the first banner and the first end line behind
/// it is taken in order, each line without the white space around it, and nothing else is.
pub proof fn law_any_block_is_read(
    s: &str,
    r: Result<DeviceInfo, String>,
    lines: Seq<Seq<char>>,
    behind: Seq<char>,
    start: int,
    end: int,
    version: Seq<char>,
)
    requires
        call_ensures(parse_info_text, (s,), r),
        s@ == sent(lines) + behind,
        forall|i: int| 0 <= i < lines.len() ==> !(#[trigger] lines[i]).contains('\n'),
        0 <= start < end < lines.len(),
        forall|i: int| 0 <= i < start ==> !is_magic(text::trim(#[trigger] lines[i])),
        text::trim(lines[start]) == "ESP-CSI-CLI/"@ + version,
        forall|i: int| start < i < end ==> text::trim(#[trigger] lines[i]) != "END-INFO"@,
        text::trim(lines[end]) == "END-INFO"@,
    ensures
        r is Ok,
        (r->Ok_0)@ == with_lines(
            banner_only(version),
            Seq::new((end - start - 1) as nat, |i: int| text::trim(lines[start + 1 + i])),
        ),
{
    lemma_sent(lines);
    lemma_lines_concat(sent(lines), behind);
    let trimmed = lines.map_values(|l: Seq<char>| text::trim(l));
    let before = trimmed.take(start);
    let body = trimmed.subrange(start + 1, end);
    let rest = trimmed.skip(end + 1) + trimmed_lines(behind);
    assert forall|i: int| 0 <= i < before.len() implies !is_magic(#[trigger] before[i]) by {
        assert(before[i] == text::trim(lines[i]));
    }
    assert forall|i: int| 0 <= i < body.len() implies !is_end(#[trigger] body[i]) by {
        assert(body[i] == text::trim(lines[start + 1 + i]));
    }
    law_block_is_found(before, version, body, rest);
    assert(trimmed[start] == "ESP-CSI-CLI/"@ + version);
    assert(trimmed[end] == "END-INFO"@);
    assert(trimmed + trimmed_lines(behind) =~= before.push("ESP-CSI-CLI/"@ + version) + body.push(
        "END-INFO"@,
    ) + rest);
    assert(body =~= Seq::new(
        (end - start - 1) as nat,
        |i: int| text::trim(lines[start + 1 + i]),
    ));
}

} // verus!
