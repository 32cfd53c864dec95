//! Acquisition flags that the core does not name.
//!
//! A request body may carry keys beyond the ones the core knows. Their JSON values
//! are kept as [`FlagValue`]s and re-emitted as `--{key}={value}`.
use crate::str_map::StrMap;
use crate::text;
use vstd::prelude::*;
use vstd::string::*;

verus! {

/// A JSON value, in the form in which a command line renders it.
#[derive(Debug)]
pub enum FlagValue {
    /// A JSON boolean.
    Bool(bool),
    /// A JSON string, unescaped.
    Text(String),
    /// Any other JSON value (number, null, array, object), as compact JSON.
    Json(String),
}

/// The mathematical form of a [`FlagValue`].
pub enum FlagValueView {
    Bool(bool),
    Text(Seq<char>),
    Json(Seq<char>),
}

impl View for FlagValue {
    type V = FlagValueView;

    open spec fn view(&self) -> FlagValueView {
        match self {
            FlagValue::Bool(b) => FlagValueView::Bool(*b),
            FlagValue::Text(s) => FlagValueView::Text(s@),
            FlagValue::Json(s) => FlagValueView::Json(s@),
        }
    }
}

impl Clone for FlagValue {
    fn clone(&self) -> (r: Self)
        ensures
            r == *self,
    {
        match self {
            FlagValue::Bool(b) => FlagValue::Bool(*b),
            FlagValue::Text(s) => FlagValue::Text(s.clone()),
            FlagValue::Json(s) => FlagValue::Json(s.clone()),
        }
    }
}

/// What `serde_json` makes of a JSON text: the compact form of the value it
/// holds; `None` where it holds no JSON value.
pub uninterp spec fn json_compact(text: Seq<char>) -> Option<Seq<char>>;

/// What `serde_json` makes of a JSON text read as a string: the unescaped text;
/// `None` where the JSON text holds no string.
pub uninterp spec fn json_string(text: Seq<char>) -> Option<Seq<char>>;

/// A JSON string that needs no escapes: quotes around characters other than quotes,
/// backslashes and control characters.
pub open spec fn is_plain_json_string(json: Seq<char>) -> bool {
    &&& json.len() >= 2
    &&& json[0] == '"'
    &&& json.last() == '"'
    &&& forall|i: int|
        1 <= i < json.len() - 1 ==> (#[trigger] json[i]) >= ' ' && json[i] != '"' && json[i] != '\\'
}

/// A JSON whole number: digits without a leading zero, of a value that fits 64 bits.
pub open spec fn is_whole_number(json: Seq<char>) -> bool {
    &&& json.len() > 0
    &&& json[0] != '0' || json.len() == 1
    &&& text::digits_value(json) is Some
    &&& text::digits_value(json)->0 <= u64::MAX
}

/// `serde_json::from_str` into a `serde_json::Value`, then `to_string` on it: the
/// result is named [`json_compact`] and depends on the text alone. Booleans, whole
/// numbers and strings without escapes are compact already. A text that nests deeper
/// than the parser's fixed bound is refused like one that is no JSON.
#[verifier::external_body]
fn compact_json(text: &str) -> (r: Option<String>)
    ensures
        text::opt(r) == json_compact(text@),
        text@ == "true"@ || text@ == "false"@ || is_whole_number(text@) || is_plain_json_string(
            text@,
        ) ==> text::opt(r) == Some(text@),
{
    match serde_json::from_str::<serde_json::Value>(text) {
        Ok(value) => Some(value.to_string()),
        Err(_) => None,
    }
}

/// `serde_json::from_str` into a `String`: the result is named [`json_string`]
/// and depends on the text alone. A string without escapes is what stands between its
/// quotes; a number is no string.
#[verifier::external_body]
fn string_json(text: &str) -> (r: Option<String>)
    ensures
        text::opt(r) == json_string(text@),
        is_plain_json_string(text@) ==> text::opt(r) == Some(
            text@.subrange(1, text@.len() - 1),
        ),
        is_whole_number(text@) ==> r is None,
{
    match serde_json::from_str::<String>(text) {
        Ok(string) => Some(string),
        Err(_) => None,
    }
}

/// The flag value of a JSON value with the given compact form, which read as a
/// string is `string`.
pub open spec fn classified(compact: Seq<char>, string: Option<Seq<char>>) -> FlagValueView {
    if compact == "true"@ {
        FlagValueView::Bool(true)
    } else if compact == "false"@ {
        FlagValueView::Bool(false)
    } else {
        match string {
            Some(s) => FlagValueView::Text(s),
            None => FlagValueView::Json(compact),
        }
    }
}

/// `on` or `off`.
pub open spec fn on_off(value: bool) -> Seq<char> {
    if value {
        "on"@
    } else {
        "off"@
    }
}

/// The text that stands behind `=` on a command line: `on` or `off` for a
/// boolean, a string as it is, any other value as compact JSON.
pub open spec fn rendered(value: FlagValueView) -> Seq<char> {
    match value {
        FlagValueView::Bool(b) => on_off(b),
        FlagValueView::Text(s) => s,
        FlagValueView::Json(s) => s,
    }
}

/// ` --{key}={value}`.
pub open spec fn flag(key: Seq<char>, value: Seq<char>) -> Seq<char> {
    " --"@ + key + "="@ + value
}

/// The flags of a list of entries, in its order.
pub open spec fn flags(list: Seq<(Seq<char>, FlagValue)>) -> Seq<char>
    decreases list.len(),
{
    if list.len() == 0 {
        Seq::empty()
    } else {
        flags(list.drop_last()) + flag(list.last().0, rendered(list.last().1@))
    }
}

impl FlagValue {
    /// The flag value that a JSON text denotes; `None` where it is not JSON.
    pub fn from_json(json: &str) -> (r: Option<FlagValue>)
        ensures
            match r {
                Some(v) => json_compact(json@) is Some && v@ == classified(
                    json_compact(json@)->0,
                    json_string(json@),
                ),
                None => json_compact(json@) is None,
            },
            json@ == "true"@ ==> r is Some && r->0@ == FlagValueView::Bool(true),
            json@ == "false"@ ==> r is Some && r->0@ == FlagValueView::Bool(false),
            is_whole_number(json@) ==> r is Some && r->0@ == FlagValueView::Json(json@),
            is_plain_json_string(json@) ==> r is Some && r->0@ == FlagValueView::Text(
                json@.subrange(1, json@.len() - 1),
            ),
    {
        proof {
            reveal_strlit("true");
            reveal_strlit("false");
            lemma_first_digit(json@);
        }
        match compact_json(json) {
            Some(compact) => Some(FlagValue::classify(compact, string_json(json))),
            None => None,
        }
    }

    /// The flag value of a JSON value with the compact form `compact`, which read
    /// as a string is `string`.
    pub fn classify(compact: String, string: Option<String>) -> (r: FlagValue)
        ensures
            r@ == classified(compact@, text::opt(string)),
    {
        if text::str_eq(compact.as_str(), "true") {
            FlagValue::Bool(true)
        } else if text::str_eq(compact.as_str(), "false") {
            FlagValue::Bool(false)
        } else {
            match string {
                Some(s) => FlagValue::Text(s),
                None => FlagValue::Json(compact),
            }
        }
    }

    /// The string a value holds, where it is a JSON string.
    pub fn as_str(&self) -> (r: Option<&str>)
        ensures
            match r {
                Some(s) => self@ == FlagValueView::Text(s@),
                None => !(self@ is Text),
            },
    {
        match self {
            FlagValue::Text(s) => Some(s.as_str()),
            _ => None,
        }
    }
}

/// A number begins with a digit.
proof fn lemma_first_digit(s: Seq<char>)
    ensures
        s.len() > 0 && text::digits_value(s) is Some ==> '0' <= s[0] <= '9',
    decreases s.len(),
{
    if s.len() > 1 {
        lemma_first_digit(s.drop_last());
    }
}

/// Append ` --{name}={value}`.
pub fn push_flag(cmd: &mut String, name: &str, value: &str)
    ensures
        final(cmd)@ == old(cmd)@ + flag(name@, value@),
{
    cmd.append(" --");
    cmd.append(name);
    cmd.append("=");
    cmd.append(value);
    assert(cmd@ =~= old(cmd)@ + flag(name@, value@));
}

/// The flag of an optional switch; nothing where it is unset.
pub open spec fn switch_flag(name: Seq<char>, value: Option<bool>) -> Seq<char> {
    match value {
        Some(v) => flag(name, on_off(v)),
        None => Seq::empty(),
    }
}

/// Append ` --{flag}=on` or ` --{flag}=off`; nothing where the switch is unset.
pub fn push_on_off(cmd: &mut String, flag: &str, value: Option<bool>)
    ensures
        final(cmd)@ == old(cmd)@ + switch_flag(flag@, value),
{
    if let Some(v) = value {
        push_flag(
            cmd,
            flag,
            if v {
                "on"
            } else {
                "off"
            },
        );
    } else {
        assert(cmd@ =~= old(cmd)@ + switch_flag(flag@, value));
    }
}

/// Append one unnamed flag.
pub fn push_extra(cmd: &mut String, key: &str, value: &FlagValue)
    ensures
        final(cmd)@ == old(cmd)@ + flag(key@, rendered(value@)),
{
    match value {
        FlagValue::Bool(b) => {
            push_flag(
                cmd,
                key,
                if *b {
                    "on"
                } else {
                    "off"
                },
            );
        },
        FlagValue::Text(s) => {
            push_flag(cmd, key, s.as_str());
        },
        FlagValue::Json(s) => {
            push_flag(cmd, key, s.as_str());
        },
    }
}

/// Append every unnamed flag, in key order.
pub fn push_extras(cmd: &mut String, extra: &StrMap<FlagValue>)
    ensures
        final(cmd)@ == old(cmd)@ + flags(extra.listing()),
{
    let ghost start = cmd@;
    let ghost list = extra.listing();
    let mut i: usize = 0;
    assert(list.take(0) =~= Seq::empty());
    assert(cmd@ =~= start + flags(list.take(0)));
    while i < extra.len()
        invariant
            list == extra.listing(),
            i <= list.len(),
            cmd@ == start + flags(list.take(i as int)),
        decreases list.len() - i,
    {
        assert(list.take(i + 1).drop_last() =~= list.take(i as int));
        push_extra(cmd, extra.key(i).as_str(), extra.value(i));
        assert(cmd@ =~= start + flags(list.take(i + 1)));
        i += 1;
    }
    assert(list.take(list.len() as int) =~= list);
}

// ─── Line breaks ──────────────────────────────────────────────────────────

/// A flag has no line break where its key and value have none.
pub proof fn lemma_one_line_flag(key: Seq<char>, value: Seq<char>)
    requires
        text::one_line(key),
        text::one_line(value),
    ensures
        text::one_line(flag(key, value)),
{
    reveal(text::one_line);
    reveal_strlit(" --");
    reveal_strlit("=");
    text::lemma_one_line_add(" --"@, key);
    text::lemma_one_line_add(" --"@ + key, "="@);
    text::lemma_one_line_add(" --"@ + key + "="@, value);
}

/// A switch has no line break.
pub proof fn lemma_one_line_switch(name: Seq<char>, value: Option<bool>)
    requires
        text::one_line(name),
    ensures
        text::one_line(switch_flag(name, value)),
{
    reveal(text::one_line);
    reveal_strlit("on");
    reveal_strlit("off");
    if let Some(v) = value {
        lemma_one_line_flag(name, on_off(v));
    }
}

/// Unnamed flags have no line break where their keys and values have none.
pub proof fn lemma_one_line_extras(list: Seq<(Seq<char>, FlagValue)>)
    requires
        forall|i: int|
            0 <= i < list.len() ==> text::one_line((#[trigger] list[i]).0) && text::one_line(
                rendered(list[i].1@),
            ),
    ensures
        text::one_line(flags(list)),
    decreases list.len(),
{
    reveal(text::one_line);
    if list.len() > 0 {
        let earlier = list.drop_last();
        assert forall|i: int| 0 <= i < earlier.len() implies text::one_line((#[trigger] earlier[i]).0)
            && text::one_line(rendered(earlier[i].1@)) by {
            assert(earlier[i] == list[i]);
        }
        lemma_one_line_extras(earlier);
        let last = list[list.len() - 1];
        lemma_one_line_flag(last.0, rendered(last.1@));
        text::lemma_one_line_add(flags(earlier), flag(last.0, rendered(last.1@)));
    }
}

// ─── Laws ─────────────────────────────────────────────────────────────────

/// A flag is two dashes, its name, `=` and its value, behind a space; a switch is `on` or
/// `off`, and an unset one leaves the command as it is.
pub proof fn law_flags_are_appended(
    cmd: &mut String,
    name: &str,
    value: &str,
    switch: Option<bool>,
    extra: FlagValue,
)
    ensures
        call_ensures(push_flag, (cmd, name, value), ()) ==> final(cmd)@ == old(cmd)@ + " --"@
            + name@ + "="@ + value@,
        call_ensures(push_on_off, (cmd, name, switch), ()) ==> match switch {
            Some(true) => final(cmd)@ == old(cmd)@ + " --"@ + name@ + "=on"@,
            Some(false) => final(cmd)@ == old(cmd)@ + " --"@ + name@ + "=off"@,
            None => final(cmd)@ == old(cmd)@,
        },
        call_ensures(push_extra, (cmd, name, &extra), ()) ==> match extra {
            FlagValue::Bool(true) => final(cmd)@ == old(cmd)@ + " --"@ + name@ + "=on"@,
            FlagValue::Bool(false) => final(cmd)@ == old(cmd)@ + " --"@ + name@ + "=off"@,
            FlagValue::Text(s) => final(cmd)@ == old(cmd)@ + " --"@ + name@ + "="@ + s@,
            FlagValue::Json(s) => final(cmd)@ == old(cmd)@ + " --"@ + name@ + "="@ + s@,
        },
{
    reveal_strlit("on");
    reveal_strlit("off");
    reveal_strlit("=");
    reveal_strlit("=on");
    reveal_strlit("=off");
    assert("="@ + "on"@ =~= "=on"@);
    assert("="@ + "off"@ =~= "=off"@);
    if call_ensures(push_flag, (cmd, name, value), ()) {
        assert(final(cmd)@ =~= old(cmd)@ + " --"@ + name@ + "="@ + value@);
    }
    if call_ensures(push_on_off, (cmd, name, switch), ()) {
        if let Some(v) = switch {
            assert(final(cmd)@ =~= old(cmd)@ + " --"@ + name@ + ("="@ + on_off(v)));
        } else {
            assert(final(cmd)@ =~= old(cmd)@);
        }
    }
    if call_ensures(push_extra, (cmd, name, &extra), ()) {
        assert(final(cmd)@ =~= old(cmd)@ + " --"@ + name@ + ("="@ + rendered(extra@)));
        assert(final(cmd)@ =~= old(cmd)@ + " --"@ + name@ + "="@ + rendered(extra@));
    }
}

/// Unnamed flags are all appended, in the order of their keys: one entry more adds one flag
/// at the end.
pub proof fn law_extras_are_appended_in_order(
    shorter: StrMap<FlagValue>,
    longer: StrMap<FlagValue>,
    key: Seq<char>,
    value: FlagValue,
)
    requires
        longer.listing() == shorter.listing().push((key, value)),
    ensures
        shorter.listing().len() == 0 ==> flags(shorter.listing()) == Seq::<char>::empty(),
        flags(longer.listing()) == flags(shorter.listing()) + (match value {
            FlagValue::Bool(true) => " --"@ + key + "=on"@,
            FlagValue::Bool(false) => " --"@ + key + "=off"@,
            FlagValue::Text(s) => " --"@ + key + "="@ + s@,
            FlagValue::Json(s) => " --"@ + key + "="@ + s@,
        }),
{
    reveal_strlit("on");
    reveal_strlit("off");
    reveal_strlit("=");
    reveal_strlit("=on");
    reveal_strlit("=off");
    assert("="@ + "on"@ =~= "=on"@);
    assert("="@ + "off"@ =~= "=off"@);
    assert(longer.listing().drop_last() =~= shorter.listing());
    assert(flag(key, rendered(value@)) =~= " --"@ + key + ("="@ + rendered(value@)));
}

/// A JSON value becomes the flag value of its kind: booleans switches, strings their own
/// text, whole numbers the digits they are written with.
pub proof fn law_json_kinds(json: &str, r: Option<FlagValue>)
    requires
        call_ensures(FlagValue::from_json, (json,), r),
    ensures
        json@ == "true"@ ==> r is Some && r->0@ == FlagValueView::Bool(true),
        json@ == "false"@ ==> r is Some && r->0@ == FlagValueView::Bool(false),
        is_plain_json_string(json@) ==> r is Some && r->0@ == FlagValueView::Text(
            json@.subrange(1, json@.len() - 1),
        ),
        is_whole_number(json@) ==> r is Some && r->0@ == FlagValueView::Json(json@),
{
}

/// What is no boolean is its text where it is a string, else its compact JSON.
pub proof fn law_classification(compact: String, string: Option<String>, r: FlagValue)
    requires
        call_ensures(FlagValue::classify, (compact, string), r),
    ensures
        compact@ == "true"@ ==> r@ == FlagValueView::Bool(true),
        compact@ == "false"@ ==> r@ == FlagValueView::Bool(false),
        compact@ != "true"@ && compact@ != "false"@ ==> match string {
            Some(s) => r@ == FlagValueView::Text(s@),
            None => r@ == FlagValueView::Json(compact@),
        },
{
    reveal_strlit("true");
    reveal_strlit("false");
    assert("true"@.len() == 4 && "false"@.len() == 5);
}

} // verus!
