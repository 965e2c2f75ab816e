//! Identifiers and the JSON text that goes over the wire.
use vstd::prelude::*;
use vstd::arithmetic::power::pow;
use vstd::string::*;

verus! {

/// The lower-case hexadecimal digit of `d`, for `0 <= d < 16`.
pub open spec fn hex_digit(d: int) -> char {
    "0123456789abcdef"@[d]
}

/// The `k`-th hexadecimal digit of `id`, counting from the most significant.
pub open spec fn nibble(id: u128, k: int) -> int {
    (id as int / pow(16, (31 - k) as nat)) % 16
}

/// How many hyphens stand before position `i` of an identifier's text.
pub open spec fn hyphens_before(i: int) -> int {
    (if i > 8 { 1int } else { 0int }) + (if i > 13 { 1int } else { 0int })
        + (if i > 18 { 1int } else { 0int }) + (if i > 23 { 1int } else { 0int })
}

/// The hyphenated lower-case text of an identifier: its 32 hexadecimal
/// digits, most significant first, in groups of 8, 4, 4, 4 and 12.
pub open spec fn uuid_text(id: u128) -> Seq<char> {
    Seq::new(
        36,
        |i: int|
            if i == 8 || i == 13 || i == 18 || i == 23 {
                '-'
            } else {
                hex_digit(nibble(id, i - hyphens_before(i)))
            },
    )
}

/// The identifier that a text spells, where it spells one.
pub uninterp spec fn uuid_parse(s: Seq<char>) -> Option<u128>;

/// How one character is written inside a JSON string: quote and backslash
/// behind a backslash, the usual short escapes for backspace, tab, line feed,
/// form feed and carriage return, any other control character as `\u00` and
/// two lower-case hexadecimal digits, and everything else as it is.
pub open spec fn escape_char(c: char) -> Seq<char> {
    if c == '"' {
        seq!['\\', '"']
    } else if c == '\\' {
        seq!['\\', '\\']
    } else if c == '\u{8}' {
        seq!['\\', 'b']
    } else if c == '\t' {
        seq!['\\', 't']
    } else if c == '\n' {
        seq!['\\', 'n']
    } else if c == '\u{c}' {
        seq!['\\', 'f']
    } else if c == '\r' {
        seq!['\\', 'r']
    } else if (c as u32) < 32 {
        seq!['\\', 'u', '0', '0', hex_digit((c as u32) as int / 16), hex_digit((c as u32) as int % 16)]
    } else {
        seq![c]
    }
}

/// The JSON string literal that holds `s`: each character escaped, between quotes.
pub open spec fn json_quote(s: Seq<char>) -> Seq<char> {
    seq!['"'] + s.map_values(|c: char| escape_char(c)).flatten() + seq!['"']
}

/// The string held by member `key` of the JSON object that `text` holds,
/// where `text` is a JSON object with such a member and it is a string.
pub uninterp spec fn json_str_member(text: Seq<char>, key: Seq<char>) -> Option<Seq<char>>;

/// Relies on uuid::Uuid::new_v4: a random version-4 identifier, taken as its
/// 128-bit value. Nothing is known of which value comes out.
#[verifier::external_body]
pub(crate) fn new_id() -> (r: u128) {
    uuid::Uuid::new_v4().as_u128()
}

/// Relies on uuid::Uuid::from_u128, which takes the value's bytes most
/// significant first, and its Display, which writes them hyphenated in
/// lower-case hexadecimal.
#[verifier::external_body]
pub(crate) fn id_text(id: u128) -> (r: String)
    ensures
        r@ == uuid_text(id),
{
    uuid::Uuid::from_u128(id).to_string()
}

/// Relies on uuid::Uuid::parse_str: whether and to what a text parses depends
/// on the text alone.
#[verifier::external_body]
pub(crate) fn parse_id(s: &str) -> (r: Option<u128>)
    ensures
        r == uuid_parse(s@),
{
    match uuid::Uuid::parse_str(s) {
        Ok(u) => Some(u.as_u128()),
        Err(_) => None,
    }
}

/// Relies on serde_json::to_string on a `str`, which cannot fail: the text
/// between quotes, escaped by serde_json's escape table.
#[verifier::external_body]
pub(crate) fn quote(s: &str) -> (r: String)
    ensures
        r@ == json_quote(s@),
{
    match serde_json::to_string(s) {
        Ok(t) => t,
        Err(_) => String::new(),
    }
}

/// Relies on serde_json::from_str into a serde_json::Value, then Value::get and
/// Value::as_str: the string member `key` of the object that `text` holds.
#[verifier::external_body]
pub(crate) fn str_member(text: &str, key: &str) -> (r: Option<String>)
    ensures
        r matches Some(v) ==> json_str_member(text@, key@) == Some(v@),
        r is None ==> json_str_member(text@, key@) is None,
{
    let v: serde_json::Value = match serde_json::from_str(text) {
        Ok(v) => v,
        Err(_) => return None,
    };
    match v.get(key).and_then(serde_json::Value::as_str) {
        Some(s) => Some(s.to_string()),
        None => None,
    }
}

/// The decimal digit of `d`.
pub open spec fn digit(d: nat) -> char {
    if d == 0 { '0' } else if d == 1 { '1' } else if d == 2 { '2' } else if d == 3 { '3' }
    else if d == 4 { '4' } else if d == 5 { '5' } else if d == 6 { '6' } else if d == 7 { '7' }
    else if d == 8 { '8' } else { '9' }
}

/// The decimal text of `n`, without leading zeros.
pub open spec fn decimal(n: nat) -> Seq<char>
    decreases n,
{
    if n < 10 {
        seq![digit(n)]
    } else {
        decimal(n / 10).push(digit(n % 10))
    }
}

/// Relies on usize's Display: the decimal text of the number.
#[verifier::external_body]
pub(crate) fn number_text(n: usize) -> (r: String)
    ensures
        r@ == decimal(n as nat),
{
    n.to_string()
}

/// The texts of `items` with a comma between each two.
pub open spec fn joined(items: Seq<Seq<char>>) -> Seq<char>
    decreases items.len(),
{
    if items.len() == 0 {
        Seq::empty()
    } else if items.len() == 1 {
        items[0]
    } else {
        joined(items.drop_last()) + ","@ + items.last()
    }
}

/// Appending one more item to a comma-separated list.
pub proof fn lemma_joined_step(items: Seq<Seq<char>>, i: int)
    requires
        0 <= i < items.len(),
    ensures
        joined(items.take(i + 1)) == if i == 0 {
            items[0]
        } else {
            joined(items.take(i)) + ","@ + items[i]
        },
{
    let t = items.take(i + 1);
    assert(t.drop_last() == items.take(i));
    if i == 0 {
        assert(t.len() == 1);
    }
}

/// The wire text of an envelope: its type tag and its content, each as a JSON string.
pub open spec fn envelope_text(message_type: Seq<char>, content: Seq<char>) -> Seq<char> {
    "{\"type\":"@ + json_quote(message_type) + ",\"content\":"@ + json_quote(content) + "}"@
}

/// Appends `items`, comma-separated, to `out`.
pub(crate) fn push_joined(out: &mut String, items: &Vec<String>)
    ensures
        final(out)@ == old(out)@ + joined(items@.map_values(|s: String| s@)),
{
    let ghost v = items@.map_values(|s: String| s@);
    let ghost start = out@;
    let mut i: usize = 0;
    while i < items.len()
        invariant
            i <= items@.len(),
            v == items@.map_values(|s: String| s@),
            out@ == start + joined(v.take(i as int)),
        decreases items@.len() - i,
    {
        proof {
            lemma_joined_step(v, i as int);
        }
        if i > 0 {
            out.append(",");
            assert(out@ == start + joined(v.take(i as int)) + ","@);
        }
        out.append(items[i].as_str());
        proof {
            if i > 0 {
                assert(out@ =~= start + (joined(v.take(i as int)) + ","@ + v[i as int]));
            } else {
                assert(joined(v.take(0)) =~= Seq::<char>::empty());
                assert(out@ =~= start + v[0]);
            }
        }
        i = i + 1;
    }
    assert(v.take(v.len() as int) =~= v);
}

/// The wire text of an envelope with type tag `message_type` and `content`.
pub fn encode_envelope(message_type: &str, content: &str) -> (r: String)
    ensures
        r@ == envelope_text(message_type@, content@),
{
    let mut out = "{\"type\":".to_string();
    let t = quote(message_type);
    out.append(t.as_str());
    out.append(",\"content\":");
    let c = quote(content);
    out.append(c.as_str());
    out.append("}");
    assert(out@ =~= envelope_text(message_type@, content@));
    out
}

} // verus!
