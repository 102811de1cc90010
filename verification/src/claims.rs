//! The text of a user token's claims: a JSON object with the user's id and
//! name, laid out as serde_json lays out such an object (compact, keys in
//! order, strings escaped); and the reading of a user out of a decoded
//! token's payload.
use vstd::prelude::*;

verus! {

// ---------------------------------------------------------------------------
// Specification of the layout
// ---------------------------------------------------------------------------

/// The decimal digit character for `d` in `0..10`.
pub open spec fn digit_char(d: int) -> char {
    ('0' as int + d) as char
}

/// The lowercase hexadecimal digit character for `d` in `0..16`.
pub open spec fn hex_char(d: int) -> char {
    if d < 10 {
        digit_char(d)
    } else {
        ('a' as int + (d - 10)) as char
    }
}

/// The decimal digits of `n`, most significant first, without leading zeros.
pub open spec fn spec_digits(n: nat) -> Seq<char>
    decreases n,
{
    if n < 10 {
        seq![digit_char(n as int)]
    } else {
        spec_digits(n / 10).push(digit_char((n % 10) as int))
    }
}

/// The decimal text of `n`, with a leading `-` when negative.
pub open spec fn spec_decimal(n: int) -> Seq<char> {
    if n < 0 {
        seq!['-'] + spec_digits((-n) as nat)
    } else {
        spec_digits(n as nat)
    }
}

/// How one character stands inside a JSON string: quote and backslash are
/// escaped, control characters take their short escape or `\u00xx`, every
/// other character stands for itself.
pub open spec fn spec_escape(c: char) -> Seq<char> {
    if c == '"' {
        seq!['\\', '"']
    } else if c == '\\' {
        seq!['\\', '\\']
    } else if c == '\u{8}' {
        seq!['\\', 'b']
    } else if c == '\t' {
        seq!['\\', 't']
    } else if c == '\n' {
        seq!['\\', 'n']
    } else if c == '\u{c}' {
        seq!['\\', 'f']
    } else if c == '\r' {
        seq!['\\', 'r']
    } else if (c as int) < 0x20 {
        seq!['\\', 'u', '0', '0', hex_char((c as int) / 16), hex_char((c as int) % 16)]
    } else {
        seq![c]
    }
}

/// Every character of `s` escaped, in order.
pub open spec fn spec_escape_all(s: Seq<char>) -> Seq<char>
    decreases s.len(),
{
    if s.len() == 0 {
        Seq::empty()
    } else {
        spec_escape(s[0]) + spec_escape_all(s.drop_first())
    }
}

/// `s` as a JSON string literal.
pub open spec fn spec_json_string(s: Seq<char>) -> Seq<char> {
    seq!['"'] + spec_escape_all(s) + seq!['"']
}

/// `{"id":`
pub open spec fn id_key() -> Seq<char> {
    seq!['{', '"', 'i', 'd', '"', ':']
}

/// `,"name":`
pub open spec fn name_key() -> Seq<char> {
    seq![',', '"', 'n', 'a', 'm', 'e', '"', ':']
}

/// The claims text of the user `id` named `name`:
/// `{"id":<id>,"name":<name as a JSON string>}`.
pub open spec fn spec_claims(id: i32, name: Seq<char>) -> Seq<char> {
    id_key() + spec_decimal(id as int) + name_key() + spec_json_string(name) + seq!['}']
}

// ---------------------------------------------------------------------------
// Writing and reading with serde_json
// ---------------------------------------------------------------------------

/// Writes `n` with `serde_json::to_string`, which cannot fail on an
/// integer. Claimed: the text is the decimal text of `n`.
#[verifier::external_body]
fn json_decimal(n: i32) -> (text: String)
    ensures
        text@ == spec_decimal(n as int),
{
    match serde_json::to_string(&n) {
        Ok(text) => text,
        Err(_) => String::new(),
    }
}

/// Writes `s` with `serde_json::to_string`, which cannot fail on a string.
/// Claimed: the text is `spec_json_string(s@)`: serde_json escapes `"` and
/// `\`, gives `\b \t \n \f \r` their short escapes, writes the other
/// characters below U+0020 as `\u00xx` (lowercase hex), and every other
/// character as itself.
#[verifier::external_body]
fn json_string(s: &str) -> (text: String)
    ensures
        text@ == spec_json_string(s@),
{
    match serde_json::to_string(s) {
        Ok(text) => text,
        Err(_) => String::new(),
    }
}

/// What `serde_json::from_str::<i32>` reads from `text`; `None` when it
/// refuses the text.
pub uninterp spec fn spec_json_i32(text: Seq<char>) -> Option<i32>;

/// What `serde_json::from_str::<String>` reads from `text`; `None` when it
/// refuses the text.
pub uninterp spec fn spec_json_str(text: Seq<char>) -> Option<Seq<char>>;

/// Reads an `i32` with `serde_json::from_str`. Claimed: the result is
/// `spec_json_i32(text@)`, a function of the text; and the decimal text of
/// an `i32` reads as that number. Which other texts it accepts (whitespace,
/// refusal of fractions and of numbers out of range) is not stated.
#[verifier::external_body]
fn parse_json_i32(text: &str) -> (r: Option<i32>)
    ensures
        r == spec_json_i32(text@),
        forall|n: i32| #[trigger] spec_decimal(n as int) == text@ ==> r == Some(n),
{
    serde_json::from_str::<i32>(text).ok()
}

/// Reads a string with `serde_json::from_str`. Claimed: the result is
/// `spec_json_str(text@)`, a function of the text; and the JSON string that
/// serde_json writes for a text reads back as that text. Which other texts
/// it accepts (other escapes, whitespace) is not stated.
#[verifier::external_body]
fn parse_json_string(text: &str) -> (r: Option<String>)
    ensures
        match r {
            Some(s) => spec_json_str(text@) == Some(s@),
            None => spec_json_str(text@) is None,
        },
        forall|s: Seq<char>| #[trigger] spec_json_string(s) == text@ ==> (r is Some && r.unwrap()@ == s),
{
    serde_json::from_str::<String>(text).ok()
}

/// The claims text of the user `id` named `name`.
pub fn claims_text(id: i32, name: &str) -> (text: String)
    ensures
        text@ == spec_claims(id, name@),
{
    proof {
        reveal_strlit("{\"id\":");
        reveal_strlit(",\"name\":");
        reveal_strlit("}");
    }
    let mut out = "{\"id\":".to_owned();
    assert(out@ =~= id_key());
    out.append(json_decimal(id).as_str());
    out.append(",\"name\":");
    out.append(json_string(name).as_str());
    out.append("}");
    assert(out@ =~= spec_claims(id, name@));
    out
}

// ---------------------------------------------------------------------------
// The text identifies the user
// ---------------------------------------------------------------------------

pub open spec fn is_digit(c: char) -> bool {
    '0' <= c <= '9'
}

/// The number that a run of decimal digits stands for.
pub open spec fn spec_digits_value(s: Seq<char>) -> int
    decreases s.len(),
{
    if s.len() == 0 {
        0
    } else {
        10 * spec_digits_value(s.drop_last()) + (s.last() as int - '0' as int)
    }
}

/// `v` holds the decimal text of `n` from position `p` on, and a character
/// that is not a digit right after it.
pub open spec fn decimal_at(v: Seq<char>, p: int, n: i32) -> bool {
    let d = spec_decimal(n as int);
    &&& 0 <= p
    &&& p + d.len() < v.len()
    &&& v.subrange(p, p + d.len()) == d
    &&& !is_digit(v[p + d.len()])
}

/// The character that a simple escape letter stands for.
pub open spec fn spec_simple_unescape(e: char) -> Option<char> {
    if e == '"' {
        Some('"')
    } else if e == '\\' {
        Some('\\')
    } else if e == 'b' {
        Some('\u{8}')
    } else if e == 't' {
        Some('\t')
    } else if e == 'n' {
        Some('\n')
    } else if e == 'f' {
        Some('\u{c}')
    } else if e == 'r' {
        Some('\r')
    } else {
        None
    }
}

/// The value of a hexadecimal digit.
pub open spec fn spec_hex_value(c: char) -> Option<int> {
    if '0' <= c <= '9' {
        Some(c as int - '0' as int)
    } else if 'a' <= c <= 'f' {
        Some(c as int - 'a' as int + 10)
    } else if 'A' <= c <= 'F' {
        Some(c as int - 'A' as int + 10)
    } else {
        None
    }
}

/// Puts the decoded text `prefix`, which took `n` characters of input, in
/// front of the decoding of the rest.
pub open spec fn spec_prepend(prefix: Seq<char>, n: int, rest: Option<(Seq<char>, int)>) -> Option<
    (Seq<char>, int),
> {
    match rest {
        Some((t, m)) => Some((prefix + t, m + n)),
        None => None,
    }
}

/// Decodes the JSON string body at the start of `s` up to its closing
/// quote: the text, and how many characters it took with the quote.
/// Escapes of a character above `\u00ff` are not read.
pub open spec fn spec_unescape(s: Seq<char>) -> Option<(Seq<char>, int)>
    decreases s.len(),
{
    if s.len() == 0 {
        None
    } else if s[0] == '"' {
        Some((Seq::empty(), 1))
    } else if s[0] == '\\' {
        if s.len() >= 2 && spec_simple_unescape(s[1]) is Some {
            spec_prepend(seq![spec_simple_unescape(s[1])->0], 2, spec_unescape(s.skip(2)))
        } else if s.len() >= 6 && s[1] == 'u' && s[2] == '0' && s[3] == '0' && spec_hex_value(
            s[4],
        ) is Some && spec_hex_value(s[5]) is Some {
            let c = (spec_hex_value(s[4])->0 * 16 + spec_hex_value(s[5])->0) as char;
            spec_prepend(seq![c], 6, spec_unescape(s.skip(6)))
        } else {
            None
        }
    } else {
        spec_prepend(seq![s[0]], 1, spec_unescape(s.skip(1)))
    }
}

proof fn lemma_digits(n: nat)
    ensures
        spec_digits(n).len() >= 1,
        forall|i: int| 0 <= i < spec_digits(n).len() ==> is_digit(#[trigger] spec_digits(n)[i]),
        spec_digits_value(spec_digits(n)) == n,
    decreases n,
{
    if n < 10 {
        let d = spec_digits(n);
        assert(d.drop_last() =~= Seq::<char>::empty());
        assert(spec_digits_value(Seq::<char>::empty()) == 0);
        assert(digit_char(n as int) as int == '0' as int + n);
    } else {
        lemma_digits(n / 10);
        let d = spec_digits(n);
        assert(d.drop_last() =~= spec_digits(n / 10));
        assert(digit_char((n % 10) as int) as int == '0' as int + n % 10);
        assert(10 * (n / 10) + n % 10 == n);
        assert forall|i: int| 0 <= i < d.len() implies is_digit(#[trigger] d[i]) by {
            if i < d.len() - 1 {
                assert(d[i] == spec_digits(n / 10)[i]);
            }
        }
    }
}

proof fn lemma_hex_roundtrip(x: int)
    requires
        0 <= x < 16,
    ensures
        spec_hex_value(hex_char(x)) == Some(x),
{
    if x < 10 {
        assert(digit_char(x) as int == '0' as int + x);
    } else {
        assert((('a' as int + (x - 10)) as char) as int == 'a' as int + (x - 10));
    }
}

proof fn lemma_unescape_one(c: char, tail: Seq<char>)
    ensures
        spec_unescape(spec_escape(c) + tail) == spec_prepend(
            seq![c],
            spec_escape(c).len() as int,
            spec_unescape(tail),
        ),
{
    let e = spec_escape(c);
    let s = e + tail;
    assert(s[0] == e[0]);
    if e.len() >= 2 {
        assert(s[1] == e[1]);
    }
    if e.len() == 2 {
        assert(s.skip(2) =~= tail);
    } else if e.len() == 6 {
        assert(s[2] == e[2] && s[3] == e[3] && s[4] == e[4] && s[5] == e[5]);
        assert(s.skip(6) =~= tail);
        let v = c as int;
        lemma_hex_roundtrip(v / 16);
        lemma_hex_roundtrip(v % 16);
        assert(v / 16 * 16 + v % 16 == v);
        assert((v as char) == c);
    } else {
        assert(s.skip(1) =~= tail);
    }
}

proof fn lemma_unescape_escaped(name: Seq<char>, rest: Seq<char>)
    ensures
        spec_unescape(spec_escape_all(name) + seq!['"'] + rest) == Some(
            (name, spec_escape_all(name).len() as int + 1),
        ),
    decreases name.len(),
{
    let s = spec_escape_all(name) + seq!['"'] + rest;
    if name.len() == 0 {
        assert(s =~= seq!['"'] + rest);
        assert(s[0] == '"');
        assert(name =~= Seq::<char>::empty());
    } else {
        let c = name[0];
        let tail = name.drop_first();
        lemma_unescape_escaped(tail, rest);
        let tail_text = spec_escape_all(tail) + seq!['"'] + rest;
        assert(s =~= spec_escape(c) + tail_text);
        lemma_unescape_one(c, tail_text);
        assert(seq![c] + tail =~= name);
    }
}

/// Where the parts of a claims text sit.
proof fn lemma_claims_layout(id: i32, name: Seq<char>)
    ensures
        ({
            let text = spec_claims(id, name);
            let d = spec_decimal(id as int);
            let after_id: int = 6 + d.len() as int;
            let body: int = after_id + 9;
            let end: int = body + spec_escape_all(name).len() as int + 1;
            &&& text.subrange(0, 6) == id_key()
            &&& decimal_at(text, 6, id)
            &&& text.subrange(after_id, after_id + 9) == name_key() + seq!['"']
            &&& spec_unescape(text.skip(body)) == Some((name, spec_escape_all(name).len() as int + 1))
            &&& text.len() == end + 1
            &&& text[end] == '}'
        }),
{
    let text = spec_claims(id, name);
    let d = spec_decimal(id as int);
    let esc = spec_escape_all(name);
    let after_id: int = 6 + d.len() as int;
    let body: int = after_id + 9;
    assert(text =~= id_key() + d + (name_key() + seq!['"']) + esc + seq!['"'] + seq!['}']);
    assert(text.subrange(0, 6) =~= id_key());
    assert(text.subrange(6, after_id) =~= d);
    assert(text[after_id] == ',');
    assert(text.subrange(after_id, after_id + 9) =~= name_key() + seq!['"']);
    assert(text.skip(body) =~= esc + seq!['"'] + seq!['}']);
    lemma_unescape_escaped(name, seq!['}']);
}

// ---------------------------------------------------------------------------
// Reading the user out of a decoded payload
// ---------------------------------------------------------------------------

/// `id`, the key of the user id in a payload.
pub open spec fn id_name() -> Seq<char> {
    seq!['i', 'd']
}

/// `name`, the key of the user name in a payload.
pub open spec fn name_name() -> Seq<char> {
    seq!['n', 'a', 'm', 'e']
}

/// The value text of the first member of `members` with key `key`.
pub open spec fn spec_member(members: Seq<(Seq<char>, Seq<char>)>, key: Seq<char>) -> Option<
    Seq<char>,
>
    decreases members.len(),
{
    if members.len() == 0 {
        None
    } else if members[0].0 == key {
        Some(members[0].1)
    } else {
        spec_member(members.drop_first(), key)
    }
}

/// A token's payload as texts: the members of an object (each value as
/// JSON text), the elements of an array (each as JSON text), or another
/// JSON value.
pub enum PayloadText {
    Object(Seq<(Seq<char>, Seq<char>)>),
    Array(Seq<Seq<char>>),
    Other,
}

/// A token's payload: the members of an object, each value written as JSON
/// text; the elements of an array, each written as JSON text; or another
/// JSON value (a number, a string, a boolean or null).
pub enum Payload {
    Object(Vec<(String, String)>),
    Array(Vec<String>),
    Other,
}

impl View for Payload {
    type V = PayloadText;

    open spec fn view(&self) -> PayloadText {
        match self {
            Payload::Object(m) => PayloadText::Object(m@.map_values(|e: (String, String)| (e.0@, e.1@))),
            Payload::Array(v) => PayloadText::Array(v@.map_values(|e: String| e@)),
            Payload::Other => PayloadText::Other,
        }
    }
}

/// The payload names the user `id` called `name`, as a user token is read
/// from it: an object whose `id` member reads as that `i32` and whose
/// `name` member reads as that string (other members do not matter), or an
/// array of exactly two elements, that `i32` then that string.
pub open spec fn spec_names_user(payload: Option<PayloadText>, id: i32, name: Seq<char>) -> bool {
    match payload {
        Some(PayloadText::Object(m)) => {
            &&& spec_member(m, id_name()) matches Some(t) && spec_json_i32(t) == Some(id)
            &&& spec_member(m, name_name()) matches Some(u) && spec_json_str(u) == Some(name)
        },
        Some(PayloadText::Array(v)) => {
            &&& v.len() == 2
            &&& spec_json_i32(v[0]) == Some(id)
            &&& spec_json_str(v[1]) == Some(name)
        },
        _ => false,
    }
}

/// The payload that the claims text of the user `id` named `name` becomes
/// once signed and decoded: the members `id` and `name`, in that order.
pub open spec fn spec_claims_payload(id: i32, name: Seq<char>) -> PayloadText {
    PayloadText::Object(seq![(id_name(), spec_decimal(id as int)), (name_name(), spec_json_string(name))])
}

/// The value text of the first member with key `key`.
fn member_text(members: &Vec<(String, String)>, key: &str) -> (r: Option<String>)
    ensures
        r matches Some(t) ==> spec_member(
            members@.map_values(|e: (String, String)| (e.0@, e.1@)),
            key@,
        ) == Some(t@),
        r is None ==> spec_member(members@.map_values(|e: (String, String)| (e.0@, e.1@)), key@) is None,
{
    let ghost all = members@.map_values(|e: (String, String)| (e.0@, e.1@));
    let wanted = key.to_owned();
    let mut i: usize = 0;
    assert(all.skip(0) =~= all);
    while i < members.len()
        invariant
            i <= members@.len(),
            all == members@.map_values(|e: (String, String)| (e.0@, e.1@)),
            wanted@ == key@,
            spec_member(all, key@) == spec_member(all.skip(i as int), key@),
        decreases members@.len() - i,
    {
        let ghost rest = all.skip(i as int);
        assert(rest[0] == all[i as int]);
        assert(rest.drop_first() =~= all.skip(i + 1));
        if members[i].0 == wanted {
            return Some(members[i].1.clone());
        }
        i = i + 1;
    }
    assert(all.skip(i as int).len() == 0);
    None
}

/// Reads the user that a payload names: from an object, its `id` member as
/// an `i32` and its `name` member as a string, other members ignored; from
/// an array of two elements, the `i32` then the string. `None` for any other
/// payload.
pub fn claims_of_payload(payload: &Payload) -> (r: Option<(i32, String)>)
    ensures
        r matches Some((id, name)) ==> spec_names_user(Some(payload@), id, name@),
        forall|id: i32, name: Seq<char>|
            #![trigger spec_names_user(Some(payload@), id, name)]
            spec_names_user(Some(payload@), id, name) ==> (r matches Some((i, s)) && i == id && s@
                == name),
        forall|id: i32, name: Seq<char>|
            #![trigger spec_claims_payload(id, name)]
            payload@ == spec_claims_payload(id, name) ==> (r matches Some((i, s)) && i == id && s@
                == name),
{
    proof {
        reveal_strlit("id");
        reveal_strlit("name");
        assert("id"@ =~= id_name());
        assert("name"@ =~= name_name());
    }
    match payload {
        Payload::Object(members) => {
            let ghost m = members@.map_values(|e: (String, String)| (e.0@, e.1@));
            proof {
                assert forall|id: i32, name: Seq<char>|
                    #![trigger spec_claims_payload(id, name)]
                    payload@ == spec_claims_payload(id, name) implies spec_member(m, id_name())
                        == Some(spec_decimal(id as int)) && spec_member(m, name_name()) == Some(
                        spec_json_string(name),
                    ) by {
                    let c = seq![(id_name(), spec_decimal(id as int)), (name_name(), spec_json_string(name))];
                    assert(m == c);
                    assert(c[0].0 != name_name()) by {
                        assert(c[0].0.len() != name_name().len());
                    }
                    assert(c.drop_first()[0] == c[1]);
                    assert(spec_member(c.drop_first(), name_name()) == Some(spec_json_string(name)));
                    assert(spec_member(c, id_name()) == Some(spec_decimal(id as int)));
                    assert(spec_member(c, name_name()) == Some(spec_json_string(name)));
                }
            }
            let id_text = match member_text(members, "id") {
                Some(t) => t,
                None => return None,
            };
            let name_text = match member_text(members, "name") {
                Some(t) => t,
                None => return None,
            };
            let id = match parse_json_i32(id_text.as_str()) {
                Some(n) => n,
                None => return None,
            };
            let name = match parse_json_string(name_text.as_str()) {
                Some(s) => s,
                None => return None,
            };
            Some((id, name))
        },
        Payload::Array(items) => {
            if items.len() != 2 {
                return None;
            }
            let id = match parse_json_i32(items[0].as_str()) {
                Some(n) => n,
                None => return None,
            };
            let name = match parse_json_string(items[1].as_str()) {
                Some(s) => s,
                None => return None,
            };
            Some((id, name))
        },
        Payload::Other => None,
    }
}

/// A decimal text followed by a non-digit is read one way only.
proof fn lemma_decimal_at_unique(v: Seq<char>, p: int, n1: i32, n2: i32)
    requires
        decimal_at(v, p, n1),
        decimal_at(v, p, n2),
    ensures
        n1 == n2,
{
    let d1 = spec_decimal(n1 as int);
    let d2 = spec_decimal(n2 as int);
    let m1: nat = if n1 < 0 { (-(n1 as int)) as nat } else { n1 as nat };
    let m2: nat = if n2 < 0 { (-(n2 as int)) as nat } else { n2 as nat };
    lemma_digits(m1);
    lemma_digits(m2);
    let g1 = spec_digits(m1);
    let g2 = spec_digits(m2);
    assert(v.subrange(p, p + d1.len())[0] == d1[0]);
    assert(v.subrange(p, p + d2.len())[0] == d2[0]);
    if n1 < 0 {
        assert(d1[0] == '-');
    } else {
        assert(d1 == g1 && is_digit(d1[0]));
    }
    if n2 < 0 {
        assert(d2[0] == '-');
    } else {
        assert(d2 == g2 && is_digit(d2[0]));
    }
    assert((n1 < 0) == (n2 < 0));
    let start: int = if n1 < 0 { p + 1 } else { p };
    assert forall|j: int| 0 <= j < g1.len() implies v[start + j] == g1[j] by {
        if n1 < 0 {
            assert(v.subrange(p, p + d1.len())[j + 1] == d1[j + 1]);
        } else {
            assert(v.subrange(p, p + d1.len())[j] == d1[j]);
        }
    }
    assert forall|j: int| 0 <= j < g2.len() implies v[start + j] == g2[j] by {
        if n2 < 0 {
            assert(v.subrange(p, p + d2.len())[j + 1] == d2[j + 1]);
        } else {
            assert(v.subrange(p, p + d2.len())[j] == d2[j]);
        }
    }
    if g1.len() < g2.len() {
        assert(v[start + g1.len()] == g2[g1.len() as int]);
        assert(is_digit(g2[g1.len() as int]));
        assert(start + g1.len() == p + d1.len());
    }
    if g2.len() < g1.len() {
        assert(v[start + g2.len()] == g1[g2.len() as int]);
        assert(is_digit(g1[g2.len() as int]));
        assert(start + g2.len() == p + d2.len());
    }
    assert(g1.len() == g2.len());
    assert(g1 =~= g2);
}

/// Distinct users have distinct claims texts: the id and the name can be
/// read back from the text, so a token's claims identify its user.
pub proof fn lemma_claims_injective(id1: i32, name1: Seq<char>, id2: i32, name2: Seq<char>)
    requires
        spec_claims(id1, name1) == spec_claims(id2, name2),
    ensures
        id1 == id2,
        name1 == name2,
{
    let t = spec_claims(id1, name1);
    lemma_claims_layout(id1, name1);
    lemma_claims_layout(id2, name2);
    lemma_decimal_at_unique(t, 6, id1, id2);
}

} // verus!
