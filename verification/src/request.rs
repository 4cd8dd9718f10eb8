//! What requests carry: the bodies that are sent, and the numbers that make them unrepeatable.

use crate::config::Config;
use crate::json::{the_first_field_counts, Json, JsonTree};
use vstd::prelude::*;
use vstd::string::*;

verus! {

// ---------------------------------------------------------------------------------------------
// Bodies
// ---------------------------------------------------------------------------------------------

/// An object with the given fields.
pub open spec fn object(fields: Seq<(Seq<char>, JsonTree)>) -> JsonTree {
    JsonTree::Object(fields)
}

/// The body of the activating request: the smallest question, "1", to the model of the settings.
pub open spec fn activation_body(cfg: Config) -> JsonTree {
    object(
        seq![
            ("model"@, JsonTree::Text(cfg.model@)),
            (
                "messages"@,
                JsonTree::List(
                    seq![
                        object(
                            seq![
                                ("role"@, JsonTree::Text("user"@)),
                                ("content"@, JsonTree::Text("1"@)),
                            ],
                        ),
                    ],
                ),
            ),
            ("max_tokens"@, JsonTree::Number(Some(cfg.max_tokens as i64))),
            ("stream"@, JsonTree::Bool(false)),
        ],
    )
}

/// The body of a request to use a card.
pub open spec fn reset_body(week: bool, record_id: i64, request_id: Seq<char>) -> JsonTree {
    object(
        seq![
            ("targetType"@, JsonTree::Text("PERSONAL"@)),
            (
                "resetType"@,
                JsonTree::Text(
                    if week {
                        "WEEK"@
                    } else {
                        "FIVE_HOUR"@
                    },
                ),
            ),
            ("recordId"@, JsonTree::Number(Some(record_id))),
            ("requestId"@, JsonTree::Text(request_id)),
        ],
    )
}

fn text_field(key: &str, value: &str) -> (r: (String, Json))
    ensures
        r.0@ == key@,
        r.1@ == JsonTree::Text(value@),
{
    (key.to_owned(), Json::Text(value.to_owned()))
}

fn number_field(key: &str, value: i64) -> (r: (String, Json))
    ensures
        r.0@ == key@,
        r.1@ == JsonTree::Number(Some(value)),
{
    (key.to_owned(), Json::Number(Some(value)))
}

/// The body of the activating request.
pub fn activation_request(cfg: &Config) -> (r: Json)
    ensures
        r@ == activation_body(*cfg),
{
    let mut message: Vec<(String, Json)> = Vec::new();
    message.push(text_field("role", "user"));
    message.push(text_field("content", "1"));
    let message = Json::Object(message);
    assert(message@->Object_0 =~= seq![
        ("role"@, JsonTree::Text("user"@)),
        ("content"@, JsonTree::Text("1"@)),
    ]);
    let mut messages: Vec<Json> = Vec::new();
    messages.push(message);
    let messages = Json::List(messages);
    assert(messages@->List_0 =~= activation_body(*cfg)->Object_0[1].1->List_0);
    let mut fields: Vec<(String, Json)> = Vec::new();
    fields.push(text_field("model", cfg.model.as_str()));
    fields.push(("messages".to_owned(), messages));
    fields.push(number_field("max_tokens", cfg.max_tokens as i64));
    fields.push(("stream".to_owned(), Json::Bool(false)));
    assert(fields@[3].1@ == JsonTree::Bool(false));
    let body = Json::Object(fields);
    assert(body@->Object_0 =~= activation_body(*cfg)->Object_0);
    body
}

/// The body of a request to use a card: for the week, or for the five hours.
pub fn reset_request(week: bool, record_id: i64, request_id: &str) -> (r: Json)
    ensures
        r@ == reset_body(week, record_id, request_id@),
{
    let mut fields: Vec<(String, Json)> = Vec::new();
    fields.push(text_field("targetType", "PERSONAL"));
    fields.push(text_field("resetType", if week { "WEEK" } else { "FIVE_HOUR" }));
    fields.push(number_field("recordId", record_id));
    fields.push(text_field("requestId", request_id));
    let body = Json::Object(fields);
    assert(body@->Object_0 =~= reset_body(week, record_id, request_id@)->Object_0);
    body
}

// ---------------------------------------------------------------------------------------------
// Request numbers
// ---------------------------------------------------------------------------------------------

/// A hexadecimal digit.
pub open spec fn hex_digit(d: int) -> char {
    if d < 10 {
        (48 + d) as u8 as char
    } else {
        (87 + d) as u8 as char
    }
}

/// A byte as two hexadecimal digits.
pub open spec fn hex_byte(b: u8) -> Seq<char> {
    seq![hex_digit(b as int / 16), hex_digit(b as int % 16)]
}

/// Bytes as hexadecimal digits.
pub open spec fn hex(bytes: Seq<u8>) -> Seq<char>
    decreases bytes.len(),
{
    if bytes.len() == 0 {
        Seq::empty()
    } else {
        hex(bytes.drop_last()) + hex_byte(bytes.last())
    }
}

/// Sixteen bytes with the marks of a random UUID: version 4, and the variant of RFC 4122.
pub open spec fn marked(bytes: Seq<u8>) -> Seq<u8> {
    bytes.update(6, (bytes[6] & 0x0f) | 0x40).update(8, (bytes[8] & 0x3f) | 0x80)
}

/// Sixteen bytes in the form of a UUID.
pub open spec fn uuid_text(b: Seq<u8>) -> Seq<char> {
    hex(b.subrange(0, 4)) + "-"@ + hex(b.subrange(4, 6)) + "-"@ + hex(b.subrange(6, 8)) + "-"@ + hex(
        b.subrange(8, 10),
    ) + "-"@ + hex(b.subrange(10, 16))
}

fn hex_char(d: u8) -> (c: char)
    requires
        d < 16,
    ensures
        c == hex_digit(d as int),
{
    if d < 10 {
        (48 + d) as char
    } else {
        (87 + d) as char
    }
}

fn push_hex(text: &mut String, bytes: &[u8; 16], from: usize, to: usize)
    requires
        from <= to <= 16,
    ensures
        final(text)@ == old(text)@ + hex(bytes@.subrange(from as int, to as int)),
{
    let ghost before = text@;
    let mut i: usize = from;
    assert(before + hex(bytes@.subrange(from as int, from as int)) =~= before);
    while i < to
        invariant
            from <= i <= to <= 16,
            text@ == before + hex(bytes@.subrange(from as int, i as int)),
        decreases to - i,
    {
        let b: u8 = bytes[i];
        let ghost part = bytes@.subrange(from as int, i as int);
        let ghost more = bytes@.subrange(from as int, i + 1);
        text.push(hex_char(b / 16));
        text.push(hex_char(b % 16));
        assert(more.drop_last() =~= part);
        assert(more.last() == b);
        assert(before + hex(more) =~= (before + hex(part)).push(hex_digit(b as int / 16)).push(
            hex_digit(b as int % 16),
        ));
        i = i + 1;
    }
}

/// The request number that sixteen bytes make.
pub fn request_id(bytes: [u8; 16]) -> (r: String)
    ensures
        r@ == uuid_text(marked(bytes@)),
{
    let mut b: [u8; 16] = bytes;
    b[6] = (b[6] & 0x0f) | 0x40;
    b[8] = (b[8] & 0x3f) | 0x80;
    assert(b@ =~= marked(bytes@));
    let mut text: String = String::new();
    push_hex(&mut text, &b, 0, 4);
    assert(text@ =~= hex(b@.subrange(0, 4)));
    text.append("-");
    push_hex(&mut text, &b, 4, 6);
    text.append("-");
    push_hex(&mut text, &b, 6, 8);
    text.append("-");
    push_hex(&mut text, &b, 8, 10);
    text.append("-");
    push_hex(&mut text, &b, 10, 16);
    text
}

/// The mixture of the time, the process and a count from which a request number is made where the
/// machine offers no random bytes.
pub open spec fn mixture(nanos: u128, process: u32, count: u32) -> u128 {
    let a = nanos ^ ((process as u128) << 96) ^ ((count as u128) << 64);
    let b = a ^ (a >> 33);
    let c = b.wrapping_mul(0xff51_afd7_ed55_8ccd);
    c ^ (c >> 33)
}

/// Sixteen bytes from the time, the process and a count.
pub fn fallback_bytes(nanos: u128, process: u32, count: u32) -> (r: [u8; 16])
    ensures
        forall|i: int|
            0 <= i < 16 ==> #[trigger] r@[i] == (mixture(nanos, process, count) >> (8 * i) as u128)
                as u8,
{
    let a: u128 = nanos ^ ((process as u128) << 96u128) ^ ((count as u128) << 64u128);
    let b: u128 = a ^ (a >> 33u128);
    let c: u128 = b.wrapping_mul(0xff51_afd7_ed55_8ccd);
    let h: u128 = c ^ (c >> 33u128);
    assert(h == mixture(nanos, process, count));
    let mut r: [u8; 16] = [0u8; 16];
    let mut i: usize = 0;
    while i < 16
        invariant
            i <= 16,
            forall|j: int| 0 <= j < i ==> #[trigger] r@[j] == (h >> (8 * j) as u128) as u8,
        decreases 16 - i,
    {
        r[i] = (h >> (8 * i as u128)) as u8;
        i = i + 1;
    }
    r
}

// ---------------------------------------------------------------------------------------------
// Laws
// ---------------------------------------------------------------------------------------------

/// A digit from 0 to 9 or a letter from a to f.
pub open spec fn is_hex_digit(c: char) -> bool {
    '0' <= c <= '9' || 'a' <= c <= 'f'
}

proof fn hex_digits(bytes: Seq<u8>)
    ensures
        hex(bytes).len() == 2 * bytes.len(),
        forall|i: int|
            0 <= i < bytes.len() ==> hex(bytes)[2 * i] == hex_digit(#[trigger] bytes[i] as int / 16)
                && hex(bytes)[2 * i + 1] == hex_digit(bytes[i] as int % 16),
        forall|k: int| 0 <= k < hex(bytes).len() ==> is_hex_digit(#[trigger] hex(bytes)[k]),
    decreases bytes.len(),
{
    if bytes.len() > 0 {
        let shorter = bytes.drop_last();
        hex_digits(shorter);
        assert forall|i: int| 0 <= i < bytes.len() implies hex(bytes)[2 * i] == hex_digit(
            #[trigger] bytes[i] as int / 16,
        ) && hex(bytes)[2 * i + 1] == hex_digit(bytes[i] as int % 16) by {
            if i < shorter.len() {
                assert(shorter[i] == bytes[i]);
            }
        }
    }
}

proof fn mark_bits(x: u8)
    ensures
        ((x & 0x0f) | 0x40) / 16 == 4,
        8 <= ((x & 0x3f) | 0x80) / 16 <= 11,
{
    assert(((x & 0x0f) | 0x40) / 16 == 4) by (bit_vector);
    assert(8 <= ((x & 0x3f) | 0x80) / 16 <= 11) by (bit_vector);
}

/// A request number has the shape of a random UUID: 36 characters, in groups of 8, 4, 4, 4 and 12
/// hexadecimal digits with dashes between, of which the third begins with the version, 4, and the
/// fourth with the variant, 8 to b.
pub proof fn request_id_has_uuid_shape(bytes: Seq<u8>)
    requires
        bytes.len() == 16,
    ensures
        uuid_text(marked(bytes)).len() == 36,
        forall|k: int|
            0 <= k < 36 ==> (if k == 8 || k == 13 || k == 18 || k == 23 {
                (#[trigger] uuid_text(marked(bytes))[k]) == '-'
            } else {
                is_hex_digit(uuid_text(marked(bytes))[k])
            }),
        uuid_text(marked(bytes))[14] == '4',
        ({
            let c = uuid_text(marked(bytes))[19];
            c == '8' || c == '9' || c == 'a' || c == 'b'
        }),
{
    let b = marked(bytes);
    reveal_strlit("-");
    mark_bits(bytes[6]);
    mark_bits(bytes[8]);
    hex_digits(b.subrange(0, 4));
    hex_digits(b.subrange(4, 6));
    hex_digits(b.subrange(6, 8));
    hex_digits(b.subrange(8, 10));
    hex_digits(b.subrange(10, 16));
    assert(b.subrange(6, 8)[0] == b[6]);
    assert(b.subrange(8, 10)[0] == b[8]);
    assert(uuid_text(b)[14] == hex(b.subrange(6, 8))[0]);
    assert(uuid_text(b)[19] == hex(b.subrange(8, 10))[0]);
}

/// Bytes are told by their digits.
proof fn hex_tells_bytes(p: Seq<u8>, q: Seq<u8>)
    requires
        hex(p) == hex(q),
    ensures
        p == q,
    decreases p.len(),
{
    hex_digits(p);
    hex_digits(q);
    if p.len() > 0 {
        let (s, t) = (hex(p.drop_last()), hex(q.drop_last()));
        hex_digits(p.drop_last());
        hex_digits(q.drop_last());
        assert(hex(p).take(s.len() as int) =~= s);
        assert(hex(q).take(t.len() as int) =~= t);
        hex_tells_bytes(p.drop_last(), q.drop_last());
        let n = p.len() - 1;
        assert(p[n] == p.last() && q[n] == q.last());
        assert(hex(p)[2 * n] == hex(q)[2 * n]);
        assert(hex(p)[2 * n + 1] == hex(q)[2 * n + 1]);
        assert(p =~= p.drop_last().push(p.last()));
        assert(q =~= q.drop_last().push(q.last()));
    } else {
        assert(p =~= q);
    }
}

/// Where the groups of digits stand.
proof fn uuid_groups(b: Seq<u8>)
    requires
        b.len() == 16,
    ensures
        uuid_text(b).subrange(0, 8) == hex(b.subrange(0, 4)),
        uuid_text(b).subrange(9, 13) == hex(b.subrange(4, 6)),
        uuid_text(b).subrange(14, 18) == hex(b.subrange(6, 8)),
        uuid_text(b).subrange(19, 23) == hex(b.subrange(8, 10)),
        uuid_text(b).subrange(24, 36) == hex(b.subrange(10, 16)),
{
    reveal_strlit("-");
    hex_digits(b.subrange(0, 4));
    hex_digits(b.subrange(4, 6));
    hex_digits(b.subrange(6, 8));
    hex_digits(b.subrange(8, 10));
    hex_digits(b.subrange(10, 16));
    assert(uuid_text(b).subrange(0, 8) =~= hex(b.subrange(0, 4)));
    assert(uuid_text(b).subrange(9, 13) =~= hex(b.subrange(4, 6)));
    assert(uuid_text(b).subrange(14, 18) =~= hex(b.subrange(6, 8)));
    assert(uuid_text(b).subrange(19, 23) =~= hex(b.subrange(8, 10)));
    assert(uuid_text(b).subrange(24, 36) =~= hex(b.subrange(10, 16)));
}

/// Numbers made of different bytes are different, apart from the six bits that are marks.
pub proof fn request_ids_differ(a: Seq<u8>, b: Seq<u8>)
    requires
        a.len() == 16,
        b.len() == 16,
        marked(a) != marked(b),
    ensures
        uuid_text(marked(a)) != uuid_text(marked(b)),
{
    let (x, y) = (marked(a), marked(b));
    if uuid_text(x) == uuid_text(y) {
        uuid_groups(x);
        uuid_groups(y);
        hex_tells_bytes(x.subrange(0, 4), y.subrange(0, 4));
        hex_tells_bytes(x.subrange(4, 6), y.subrange(4, 6));
        hex_tells_bytes(x.subrange(6, 8), y.subrange(6, 8));
        hex_tells_bytes(x.subrange(8, 10), y.subrange(8, 10));
        hex_tells_bytes(x.subrange(10, 16), y.subrange(10, 16));
        assert(x =~= x.subrange(0, 4) + x.subrange(4, 6) + x.subrange(6, 8) + x.subrange(8, 10)
            + x.subrange(10, 16));
        assert(y =~= y.subrange(0, 4) + y.subrange(4, 6) + y.subrange(6, 8) + y.subrange(8, 10)
            + y.subrange(10, 16));
    }
}

/// The activating request asks the model of the settings for a stream-less answer of as many tokens
/// as the settings allow, to one message of the user that says "1".
pub proof fn the_activating_request_asks_one_question(cfg: Config)
    ensures
        ({
            let body = activation_body(cfg);
            &&& body is Object
            &&& body->Object_0.len() == 4
            &&& body.field("model"@) == Some(JsonTree::Text(cfg.model@))
            &&& body.field("max_tokens"@) is Some
            &&& body.field("max_tokens"@)->0.whole() is Some
            &&& body.field("max_tokens"@)->0.whole()->0 == cfg.max_tokens
            &&& body.field("stream"@) == Some(JsonTree::Bool(false))
            &&& body.field("messages"@) is Some
            &&& body.field("messages"@)->0.items() is Some
            &&& body.field("messages"@)->0.items()->0.len() == 1
            &&& body.field("messages"@)->0.items()->0[0].field("role"@) == Some(
                JsonTree::Text("user"@),
            )
            &&& body.field("messages"@)->0.items()->0[0].field("content"@) == Some(
                JsonTree::Text("1"@),
            )
        }),
{
    reveal_strlit("model");
    reveal_strlit("messages");
    reveal_strlit("max_tokens");
    reveal_strlit("stream");
    reveal_strlit("role");
    reveal_strlit("content");
    let fields = activation_body(cfg)->Object_0;
    assert("model"@.len() == 5 && "messages"@.len() == 8 && "max_tokens"@.len() == 10
        && "stream"@.len() == 6 && "role"@.len() == 4 && "content"@.len() == 7);
    the_first_field_counts(fields, "model"@, 0);
    the_first_field_counts(fields, "messages"@, 1);
    the_first_field_counts(fields, "max_tokens"@, 2);
    the_first_field_counts(fields, "stream"@, 3);
    let message = fields[1].1->List_0[0]->Object_0;
    the_first_field_counts(message, "role"@, 0);
    the_first_field_counts(message, "content"@, 1);
}

/// A request to use a card names the card, the kind of its window and its own number.
pub proof fn a_card_request_names_the_card(week: bool, record_id: i64, request_id: Seq<char>)
    ensures
        ({
            let body = reset_body(week, record_id, request_id);
            &&& body is Object
            &&& body->Object_0.len() == 4
            &&& body.field("targetType"@) == Some(JsonTree::Text("PERSONAL"@))
            &&& week ==> body.field("resetType"@) == Some(JsonTree::Text("WEEK"@))
            &&& !week ==> body.field("resetType"@) == Some(JsonTree::Text("FIVE_HOUR"@))
            &&& body.field("recordId"@) == Some(JsonTree::Number(Some(record_id)))
            &&& body.field("requestId"@) == Some(JsonTree::Text(request_id))
        }),
{
    reveal_strlit("targetType");
    reveal_strlit("resetType");
    reveal_strlit("recordId");
    reveal_strlit("requestId");
    let fields = reset_body(week, record_id, request_id)->Object_0;
    assert("targetType"@.len() == 10 && "resetType"@.len() == 9 && "recordId"@.len() == 8);
    assert("requestId"@.len() == 9 && "requestId"@[2] == 'q' && "resetType"@[2] == 's');
    the_first_field_counts(fields, "targetType"@, 0);
    the_first_field_counts(fields, "resetType"@, 1);
    the_first_field_counts(fields, "recordId"@, 2);
    the_first_field_counts(fields, "requestId"@, 3);
}

/// The number that a hexadecimal digit stands for.
pub open spec fn digit_value(c: char) -> int {
    if '0' <= c <= '9' {
        c as int - '0' as int
    } else {
        c as int - 'a' as int + 10
    }
}

/// Two digits of a request number spell each byte, the upper half first: the bytes stand in their
/// order, and the dashes before the fifth, the seventh, the ninth and the eleventh.
pub proof fn request_ids_spell_their_bytes(b: Seq<u8>, i: int)
    requires
        b.len() == 16,
        0 <= i < 16,
    ensures
        ({
            let dashes: int = if i < 4 {
                0
            } else if i < 6 {
                1
            } else if i < 8 {
                2
            } else if i < 10 {
                3
            } else {
                4
            };
            let at = 2 * i + dashes;
            &&& uuid_text(b).len() == 36
            &&& 16 * digit_value(uuid_text(b)[at]) + digit_value(uuid_text(b)[at + 1]) == b[i]
        }),
{
    reveal_strlit("-");
    hex_digits(b.subrange(0, 4));
    hex_digits(b.subrange(4, 6));
    hex_digits(b.subrange(6, 8));
    hex_digits(b.subrange(8, 10));
    hex_digits(b.subrange(10, 16));
    let t = uuid_text(b);
    if i < 4 {
        assert(b.subrange(0, 4)[i] == b[i]);
        assert(t[2 * i] == hex(b.subrange(0, 4))[2 * i]);
        assert(t[2 * i + 1] == hex(b.subrange(0, 4))[2 * i + 1]);
    } else if i < 6 {
        let k = i - 4;
        assert(b.subrange(4, 6)[k] == b[i]);
        assert(t[2 * i + 1] == hex(b.subrange(4, 6))[2 * k]);
        assert(t[2 * i + 2] == hex(b.subrange(4, 6))[2 * k + 1]);
    } else if i < 8 {
        let k = i - 6;
        assert(b.subrange(6, 8)[k] == b[i]);
        assert(t[2 * i + 2] == hex(b.subrange(6, 8))[2 * k]);
        assert(t[2 * i + 3] == hex(b.subrange(6, 8))[2 * k + 1]);
    } else if i < 10 {
        let k = i - 8;
        assert(b.subrange(8, 10)[k] == b[i]);
        assert(t[2 * i + 3] == hex(b.subrange(8, 10))[2 * k]);
        assert(t[2 * i + 4] == hex(b.subrange(8, 10))[2 * k + 1]);
    } else {
        let k = i - 10;
        assert(b.subrange(10, 16)[k] == b[i]);
        assert(t[2 * i + 4] == hex(b.subrange(10, 16))[2 * k]);
        assert(t[2 * i + 5] == hex(b.subrange(10, 16))[2 * k + 1]);
    }
}

/// The marks change nothing but themselves: fourteen bytes stay as they are, and of the two others
/// the lower four and the lower six bits.
pub proof fn marks_change_only_themselves(bytes: Seq<u8>, i: int)
    requires
        bytes.len() == 16,
        0 <= i < 16,
    ensures
        marked(bytes).len() == 16,
        i != 6 && i != 8 ==> marked(bytes)[i] == bytes[i],
        marked(bytes)[6] == 64 + bytes[6] % 16,
        marked(bytes)[8] == 128 + bytes[8] % 64,
{
    let (x, y) = (bytes[6], bytes[8]);
    assert((x & 0x0f) | 0x40 == 64 + x % 16) by (bit_vector);
    assert((y & 0x3f) | 0x80 == 128 + y % 64) by (bit_vector);
}

/// Request numbers are mixed from all of the time, the process and the count: where two of the three
/// are the same and the third is not, the mixtures differ.
pub proof fn mixtures_differ(p: u128, q: u128, m: u32, n: u32, a: u32, b: u32)
    requires
        (p != q && m == n && a == b) || (p == q && m != n && a == b) || (p == q && m == n && a
            != b),
    ensures
        mixture(p, m, a) != mixture(q, n, b),
{
    let s = p ^ ((m as u128) << 96) ^ ((a as u128) << 64);
    let t = q ^ ((n as u128) << 96) ^ ((b as u128) << 64);
    assert(s != t) by (bit_vector)
        requires
            s == p ^ ((m as u128) << 96) ^ ((a as u128) << 64),
            t == q ^ ((n as u128) << 96) ^ ((b as u128) << 64),
            (p != q && m == n && a == b) || (p == q && m != n && a == b) || (p == q && m == n && a
                != b),
    ;
    let (s1, t1) = (s ^ (s >> 33), t ^ (t >> 33));
    assert(s1 != t1) by (bit_vector)
        requires
            s1 == s ^ (s >> 33),
            t1 == t ^ (t >> 33),
            s != t,
    ;
    let s2 = s1.wrapping_mul(0xff51_afd7_ed55_8ccd);
    let t2 = t1.wrapping_mul(0xff51_afd7_ed55_8ccd);
    products_differ(s1, t1);
    assert(s2 ^ (s2 >> 33) != t2 ^ (t2 >> 33)) by (bit_vector)
        requires
            s2 != t2,
    ;
}

/// Multiplying by an odd number loses nothing.
proof fn products_differ(x: u128, y: u128)
    requires
        x != y,
    ensures
        x.wrapping_mul(0xff51_afd7_ed55_8ccd) != y.wrapping_mul(0xff51_afd7_ed55_8ccd),
{
    multiplied_back(x as int);
    multiplied_back(y as int);
}

proof fn multiplied_back(x: int)
    requires
        0 <= x < 0x1_0000_0000_0000_0000_0000_0000_0000_0000int,
    ensures
        ((x * 0xff51_afd7_ed55_8ccd) % 0x1_0000_0000_0000_0000_0000_0000_0000_0000int * 0xd80b6274ba78b77a4f74430c22a54005)
            % 0x1_0000_0000_0000_0000_0000_0000_0000_0000int == x,
{
    let m: int = 0x1_0000_0000_0000_0000_0000_0000_0000_0000int;
    let k: int = 0xff51_afd7_ed55_8ccd;
    let v: int = 0xd80b6274ba78b77a4f74430c22a54005;
    vstd::arithmetic::div_mod::lemma_mul_mod_noop_left(x * k, v, m);
    vstd::arithmetic::mul::lemma_mul_is_associative(x, k, v);
    vstd::arithmetic::div_mod::lemma_mul_mod_noop_right(x, k * v, m);
    assert((k * v) % m == 1);
    vstd::arithmetic::div_mod::lemma_small_mod(x as nat, m as nat);
}

} // verus!
