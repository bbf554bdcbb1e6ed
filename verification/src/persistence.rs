//! The credential store: connection records persisted as one JSON
//! document, with secrets in platform secure storage and an explicit
//! plaintext fallback in the document itself.
//!
//! Saving writes every record's metadata — name, backend kind, and a
//! fallback copy of the secret — into the document, then best-effort
//! writes each secret into secure storage keyed by the service name
//! and the connection name. Loading prefers the secure-storage secret
//! and falls back to the document's copy; a record with neither loads
//! with an empty secret. The document is rendered and parsed here,
//! character by character, and parsing the rendered form gives back
//! exactly what was saved.

use vstd::prelude::*;

use crate::state::{ConnectionConfig, DatabaseType};
use crate::text::{chars_of, push_char};

verus! {

/// The persisted, non-secret projection of one connection record,
/// with the last-resort plaintext copy of the secret.
#[derive(Debug, Clone)]
pub struct ConnectionMetadata {
    pub name: String,
    pub db_type: DatabaseType,
    pub unsafe_password: Option<String>,
}

/// The mathematical content of one persisted record.
pub ghost struct MetaView {
    pub name: Seq<char>,
    pub db_type: DatabaseType,
    pub unsafe_password: Option<Seq<char>>,
}

impl View for ConnectionMetadata {
    type V = MetaView;

    open spec fn view(&self) -> MetaView {
        MetaView {
            name: self.name@,
            db_type: self.db_type,
            unsafe_password: match self.unsafe_password {
                None => None,
                Some(p) => Some(p@),
            },
        }
    }
}

/// The views of a list of persisted records.
pub open spec fn meta_views(ms: Seq<ConnectionMetadata>) -> Seq<MetaView> {
    ms.map_values(|m: ConnectionMetadata| m@)
}

/// The hexadecimal digit character for a value below sixteen.
pub open spec fn hex_char(d: nat) -> char {
    if d == 0 { '0' }
    else if d == 1 { '1' }
    else if d == 2 { '2' }
    else if d == 3 { '3' }
    else if d == 4 { '4' }
    else if d == 5 { '5' }
    else if d == 6 { '6' }
    else if d == 7 { '7' }
    else if d == 8 { '8' }
    else if d == 9 { '9' }
    else if d == 10 { 'a' }
    else if d == 11 { 'b' }
    else if d == 12 { 'c' }
    else if d == 13 { 'd' }
    else if d == 14 { 'e' }
    else if d == 15 { 'f' }
    else { ' ' }
}

/// The value of a hexadecimal digit character, lower or upper case.
pub open spec fn hex_val(c: char) -> Option<nat> {
    if c == '0' { Some(0nat) }
    else if c == '1' { Some(1nat) }
    else if c == '2' { Some(2nat) }
    else if c == '3' { Some(3nat) }
    else if c == '4' { Some(4nat) }
    else if c == '5' { Some(5nat) }
    else if c == '6' { Some(6nat) }
    else if c == '7' { Some(7nat) }
    else if c == '8' { Some(8nat) }
    else if c == '9' { Some(9nat) }
    else if c == 'a' || c == 'A' { Some(10nat) }
    else if c == 'b' || c == 'B' { Some(11nat) }
    else if c == 'c' || c == 'C' { Some(12nat) }
    else if c == 'd' || c == 'D' { Some(13nat) }
    else if c == 'e' || c == 'E' { Some(14nat) }
    else if c == 'f' || c == 'F' { Some(15nat) }
    else { None }
}

/// The escaped rendering of one character inside a JSON string:
/// quote and backslash take a backslash, the common control
/// characters take their short escapes, any other control character
/// takes a four-digit unicode escape, and everything else stands as
/// itself.
pub open spec fn esc_char(c: char) -> Seq<char> {
    if c == '"' {
        seq!['\\', '"']
    } else if c == '\\' {
        seq!['\\', '\\']
    } else if c == '\n' {
        seq!['\\', 'n']
    } else if c == '\r' {
        seq!['\\', 'r']
    } else if c == '\t' {
        seq!['\\', 't']
    } else if (c as u32) < 32 {
        seq!['\\', 'u', '0', '0', hex_char((c as u32) as nat / 16), hex_char((c as u32) as nat % 16)]
    } else {
        seq![c]
    }
}

/// The escaped rendering of a whole text.
pub open spec fn json_escape(s: Seq<char>) -> Seq<char>
    decreases s.len(),
{
    if s.len() == 0 {
        Seq::empty()
    } else {
        esc_char(s[0]) + json_escape(s.skip(1))
    }
}

/// A JSON string literal: the escaped text between double quotes.
pub open spec fn json_string(s: Seq<char>) -> Seq<char> {
    seq!['"'] + json_escape(s) + seq!['"']
}

/// The persisted text of a backend kind.
pub open spec fn db_type_text(t: DatabaseType) -> Seq<char> {
    match t {
        DatabaseType::Sqlite => "Sqlite"@,
        DatabaseType::Postgres => "Postgres"@,
    }
}

/// The JSON object of one persisted record, fields in a fixed order.
pub open spec fn json_of_meta(m: MetaView) -> Seq<char> {
    "{\"name\":"@ + json_string(m.name) + ",\"db_type\":"@ + json_string(db_type_text(m.db_type))
        + ",\"unsafe_password\":"@ + (match m.unsafe_password {
        None => "null"@,
        Some(p) => json_string(p),
    }) + seq!['}']
}

/// The comma-separated objects of a record list.
pub open spec fn json_items(ms: Seq<MetaView>) -> Seq<char>
    decreases ms.len(),
{
    if ms.len() == 0 {
        Seq::empty()
    } else if ms.len() == 1 {
        json_of_meta(ms[0])
    } else {
        json_of_meta(ms[0]) + seq![','] + json_items(ms.skip(1))
    }
}

/// Splitting the last object off a non-empty rendered list.
pub proof fn lemma_json_items_snoc(ms: Seq<MetaView>)
    requires
        ms.len() >= 2,
    ensures
        json_items(ms) == json_items(ms.drop_last()) + seq![','] + json_of_meta(ms.last()),
    decreases ms.len(),
{
    if ms.len() == 2 {
        assert(ms.skip(1).len() == 1);
        assert(ms.skip(1)[0] == ms[1]);
        assert(ms.drop_last().len() == 1);
        assert(ms.drop_last()[0] == ms[0]);
        assert(json_items(ms.drop_last()) + seq![','] + json_of_meta(ms.last()) =~= json_of_meta(
            ms[0],
        ) + seq![','] + json_items(ms.skip(1)));
    } else {
        lemma_json_items_snoc(ms.skip(1));
        assert(ms.skip(1).drop_last() =~= ms.drop_last().skip(1));
        assert(ms.skip(1).last() == ms.last());
        assert(ms.drop_last()[0] == ms[0]);
        assert(ms.drop_last().len() >= 2);
        assert(json_items(ms.drop_last()) =~= json_of_meta(ms[0]) + seq![','] + json_items(
            ms.drop_last().skip(1),
        ));
        assert(json_items(ms) =~= json_of_meta(ms[0]) + seq![','] + (json_items(
            ms.skip(1).drop_last(),
        ) + seq![','] + json_of_meta(ms.last())));
        assert(json_items(ms.drop_last()) + seq![','] + json_of_meta(ms.last()) =~= json_of_meta(
            ms[0],
        ) + seq![','] + (json_items(ms.skip(1).drop_last()) + seq![','] + json_of_meta(
            ms.last(),
        )));
    }
}

/// The whole persisted document: a JSON array of record objects.
pub open spec fn json_of_metas(ms: Seq<MetaView>) -> Seq<char> {
    seq!['['] + json_items(ms) + seq![']']
}

/// Escaping distributes over concatenation.
pub proof fn lemma_json_escape_concat(a: Seq<char>, b: Seq<char>)
    ensures
        json_escape(a + b) == json_escape(a) + json_escape(b),
    decreases a.len(),
{
    if a.len() == 0 {
        assert(a + b =~= b);
        assert(json_escape(a) + json_escape(b) =~= json_escape(b));
    } else {
        lemma_json_escape_concat(a.skip(1), b);
        assert((a + b).skip(1) =~= a.skip(1) + b);
        assert(esc_char((a + b)[0]) + (json_escape(a.skip(1)) + json_escape(b)) =~= (esc_char(
            a[0],
        ) + json_escape(a.skip(1))) + json_escape(b));
    }
}

/// The rest of the text after a given literal prefix, if the text
/// starts with it.
pub open spec fn after_prefix(s: Seq<char>, lit: Seq<char>) -> Option<Seq<char>> {
    if lit.len() <= s.len() && s.take(lit.len() as int) == lit {
        Some(s.skip(lit.len() as int))
    } else {
        None
    }
}

/// Parses the escaped body of a JSON string through its closing
/// quote: the unescaped content, and the rest after the quote. Only
/// the escapes the renderer emits are accepted.
pub open spec fn parse_string_body(s: Seq<char>) -> Option<(Seq<char>, Seq<char>)>
    decreases s.len(),
{
    if s.len() == 0 {
        None
    } else if s[0] == '"' {
        Some((Seq::empty(), s.skip(1)))
    } else if s[0] == '\\' {
        if s.len() < 2 {
            None
        } else {
            let e = s[1];
            if e == '"' || e == '\\' {
                match parse_string_body(s.skip(2)) {
                    Some(p) => Some((seq![e] + p.0, p.1)),
                    None => None,
                }
            } else if e == 'n' {
                match parse_string_body(s.skip(2)) {
                    Some(p) => Some((seq!['\n'] + p.0, p.1)),
                    None => None,
                }
            } else if e == 'r' {
                match parse_string_body(s.skip(2)) {
                    Some(p) => Some((seq!['\r'] + p.0, p.1)),
                    None => None,
                }
            } else if e == 't' {
                match parse_string_body(s.skip(2)) {
                    Some(p) => Some((seq!['\t'] + p.0, p.1)),
                    None => None,
                }
            } else if e == 'u' {
                if s.len() < 6 || s[2] != '0' || s[3] != '0' || hex_val(s[4]) is None || hex_val(
                    s[5],
                ) is None || hex_val(s[4])->0 * 16 + hex_val(s[5])->0 >= 32 {
                    None
                } else {
                    let v = hex_val(s[4])->0 * 16 + hex_val(s[5])->0;
                    match parse_string_body(s.skip(6)) {
                        Some(p) => Some((seq![((v as u32) as char)] + p.0, p.1)),
                        None => None,
                    }
                }
            } else {
                None
            }
        }
    } else {
        match parse_string_body(s.skip(1)) {
            Some(p) => Some((seq![s[0]] + p.0, p.1)),
            None => None,
        }
    }
}

/// Parses one JSON string literal: an opening quote, then the body.
pub open spec fn parse_json_string(s: Seq<char>) -> Option<(Seq<char>, Seq<char>)> {
    if s.len() > 0 && s[0] == '"' {
        parse_string_body(s.skip(1))
    } else {
        None
    }
}

/// The backend kind named by a persisted text.
pub open spec fn parse_db_type(t: Seq<char>) -> Option<DatabaseType> {
    if t == "Sqlite"@ {
        Some(DatabaseType::Sqlite)
    } else if t == "Postgres"@ {
        Some(DatabaseType::Postgres)
    } else {
        None
    }
}

/// Parses one record object, fields in the fixed persisted order.
pub open spec fn parse_meta(s: Seq<char>) -> Option<(MetaView, Seq<char>)> {
    match after_prefix(s, "{\"name\":"@) {
        None => None,
        Some(s1) => match parse_json_string(s1) {
            None => None,
            Some((name, s2)) => match after_prefix(s2, ",\"db_type\":"@) {
                None => None,
                Some(s3) => match parse_json_string(s3) {
                    None => None,
                    Some((dbt, s4)) => match parse_db_type(dbt) {
                        None => None,
                        Some(db_type) => match after_prefix(s4, ",\"unsafe_password\":"@) {
                            None => None,
                            Some(s5) => match (match after_prefix(s5, "null"@) {
                                Some(s6) => Some((None::<Seq<char>>, s6)),
                                None => match parse_json_string(s5) {
                                    Some((p, s6)) => Some((Some(p), s6)),
                                    None => None,
                                },
                            }) {
                                None => None,
                                Some((unsafe_password, s6)) => match after_prefix(
                                    s6,
                                    seq!['}'],
                                ) {
                                    Some(s7) => Some(
                                        (MetaView { name, db_type, unsafe_password }, s7),
                                    ),
                                    None => None,
                                },
                            },
                        },
                    },
                },
            },
        },
    }
}

/// Parses one or more comma-separated record objects.
pub open spec fn parse_items(s: Seq<char>) -> Option<(Seq<MetaView>, Seq<char>)>
    decreases s.len(),
{
    match parse_meta(s) {
        None => None,
        Some((m, r)) => if r.len() < s.len() {
            if r.len() > 0 && r[0] == ',' {
                match parse_items(r.skip(1)) {
                    Some(p) => Some((seq![m] + p.0, p.1)),
                    None => None,
                }
            } else {
                Some((seq![m], r))
            }
        } else {
            None
        },
    }
}

/// Parses a whole persisted document: a JSON array of record
/// objects, with nothing after it.
pub open spec fn parse_connections_text(s: Seq<char>) -> Option<Seq<MetaView>> {
    if s.len() >= 1 && s[0] == '[' {
        let t = s.skip(1);
        if t.len() == 1 && t[0] == ']' {
            Some(Seq::empty())
        } else {
            match parse_items(t) {
                Some((ms, r)) => if r.len() == 1 && r[0] == ']' {
                    Some(ms)
                } else {
                    None
                },
                None => None,
            }
        }
    } else {
        None
    }
}

/// A hexadecimal digit reads back as its value.
proof fn lemma_hex_round(d: nat)
    requires
        d < 16,
    ensures
        hex_val(hex_char(d)) == Some(d),
{
}

/// Parsing an escaped text followed by its closing quote gives back
/// exactly the text.
pub proof fn lemma_parse_string_round(p: Seq<char>, rest: Seq<char>)
    ensures
        parse_string_body(json_escape(p) + seq!['"'] + rest) == Some((p, rest)),
    decreases p.len(),
{
    let t = json_escape(p) + seq!['"'] + rest;
    if p.len() == 0 {
        assert(t =~= seq!['"'] + rest);
        assert(t[0] == '"');
        assert(t.skip(1) =~= rest);
        assert(parse_string_body(t) == Some((Seq::<char>::empty(), rest)));
    } else {
        let c = p[0];
        let tail = json_escape(p.skip(1)) + seq!['"'] + rest;
        lemma_parse_string_round(p.skip(1), rest);
        assert(t =~= esc_char(c) + tail);
        if c == '"' || c == '\\' {
            assert(t[0] == '\\' && t[1] == c);
            assert(t.skip(2) =~= tail);
            assert(seq![c] + p.skip(1) =~= p);
        } else if c == '\n' {
            assert(t[0] == '\\' && t[1] == 'n');
            assert(t.skip(2) =~= tail);
            assert(seq![c] + p.skip(1) =~= p);
        } else if c == '\r' {
            assert(t[0] == '\\' && t[1] == 'r');
            assert(t.skip(2) =~= tail);
            assert(seq![c] + p.skip(1) =~= p);
        } else if c == '\t' {
            assert(t[0] == '\\' && t[1] == 't');
            assert(t.skip(2) =~= tail);
            assert(seq![c] + p.skip(1) =~= p);
        } else if (c as u32) < 32 {
            let u = (c as u32) as nat;
            assert(t[0] == '\\' && t[1] == 'u' && t[2] == '0' && t[3] == '0');
            assert(t[4] == hex_char(u / 16) && t[5] == hex_char(u % 16));
            lemma_hex_round(u / 16);
            lemma_hex_round(u % 16);
            assert(hex_val(t[4])->0 * 16 + hex_val(t[5])->0 == u);
            assert(t.skip(6) =~= tail);
            vstd::utf8::char_u32_cast(c, c as u32);
            assert(((u as u32) as char) == c);
            assert(seq![c] + p.skip(1) =~= p);
        } else {
            assert(t[0] == c);
            assert(c != '"' && c != '\\');
            assert(t.skip(1) =~= tail);
            assert(seq![c] + p.skip(1) =~= p);
        }
    }
}

/// Parsing a rendered record object gives back exactly the record.
#[verifier::rlimit(60)]
pub proof fn lemma_parse_meta_round(m: MetaView, rest: Seq<char>)
    ensures
        parse_meta(json_of_meta(m) + rest) == Some((m, rest)),
{
    let t = json_of_meta(m) + rest;
    let lit1 = "{\"name\":"@;
    let lit2 = ",\"db_type\":"@;
    let lit3 = ",\"unsafe_password\":"@;
    let dbt = db_type_text(m.db_type);
    let pw_part = (match m.unsafe_password {
        None => "null"@,
        Some(p) => json_string(p),
    });
    let r1 = json_string(m.name) + lit2 + json_string(dbt) + lit3 + pw_part + seq!['}'] + rest;
    assert(t =~= lit1 + r1);
    assert(t.take(lit1.len() as int) =~= lit1);
    assert(t.skip(lit1.len() as int) =~= r1);
    assert(after_prefix(t, lit1) == Some(r1));
    let r2 = lit2 + json_string(dbt) + lit3 + pw_part + seq!['}'] + rest;
    assert(r1 =~= seq!['"'] + (json_escape(m.name) + seq!['"'] + r2));
    assert(r1[0] == '"');
    assert(r1.skip(1) =~= json_escape(m.name) + seq!['"'] + r2);
    lemma_parse_string_round(m.name, r2);
    assert(parse_json_string(r1) == Some((m.name, r2)));
    let r3 = json_string(dbt) + lit3 + pw_part + seq!['}'] + rest;
    assert(r2.take(lit2.len() as int) =~= lit2);
    assert(r2.skip(lit2.len() as int) =~= r3);
    assert(after_prefix(r2, lit2) == Some(r3));
    let r4 = lit3 + pw_part + seq!['}'] + rest;
    assert(r3 =~= seq!['"'] + (json_escape(dbt) + seq!['"'] + r4));
    assert(r3[0] == '"');
    assert(r3.skip(1) =~= json_escape(dbt) + seq!['"'] + r4);
    lemma_parse_string_round(dbt, r4);
    assert(parse_json_string(r3) == Some((dbt, r4)));
    reveal_strlit("Sqlite");
    reveal_strlit("Postgres");
    assert(parse_db_type(dbt) == Some(m.db_type));
    let r5 = pw_part + seq!['}'] + rest;
    assert(r4.take(lit3.len() as int) =~= lit3);
    assert(r4.skip(lit3.len() as int) =~= r5);
    assert(after_prefix(r4, lit3) == Some(r5));
    let r6 = seq!['}'] + rest;
    reveal_strlit("null");
    match m.unsafe_password {
        None => {
            assert(r5 =~= "null"@ + r6);
            assert(r5.take(4) =~= "null"@);
            assert(r5.skip(4) =~= r6);
            assert(after_prefix(r5, "null"@) == Some(r6));
        },
        Some(p) => {
            assert(r5 =~= seq!['"'] + (json_escape(p) + seq!['"'] + r6));
            assert(r5[0] == '"');
            assert("null"@[0] == 'n');
            assert(after_prefix(r5, "null"@) is None) by {
                if "null"@.len() <= r5.len() && r5.take("null"@.len() as int) == "null"@ {
                    assert(r5.take(4)[0] == r5[0]);
                    assert(false);
                }
            }
            assert(r5.skip(1) =~= json_escape(p) + seq!['"'] + r6);
            lemma_parse_string_round(p, r6);
            assert(parse_json_string(r5) == Some((p, r6)));
        },
    }
    assert(r6.take(1) =~= seq!['}']);
    assert(r6.skip(1) =~= rest);
    assert(after_prefix(r6, seq!['}']) == Some(rest));
}

/// A rendered record object is never empty.
proof fn lemma_json_of_meta_nonempty(m: MetaView)
    ensures
        json_of_meta(m).len() > 0,
{
    reveal_strlit("{\"name\":");
}

/// Parsing rendered record objects, followed by anything that does
/// not continue the list, gives back exactly the records.
pub proof fn lemma_parse_items_round(ms: Seq<MetaView>, rest: Seq<char>)
    requires
        ms.len() > 0,
        rest.len() > 0,
        rest[0] != ',',
    ensures
        parse_items(json_items(ms) + rest) == Some((ms, rest)),
    decreases ms.len(),
{
    let t = json_items(ms) + rest;
    if ms.len() == 1 {
        lemma_parse_meta_round(ms[0], rest);
        lemma_json_of_meta_nonempty(ms[0]);
        assert(t =~= json_of_meta(ms[0]) + rest);
        assert(parse_meta(t) == Some((ms[0], rest)));
        assert(rest.len() < t.len());
        assert(seq![ms[0]] =~= ms);
    } else {
        let inner = json_items(ms.skip(1)) + rest;
        assert(t =~= json_of_meta(ms[0]) + (seq![','] + inner));
        lemma_parse_meta_round(ms[0], seq![','] + inner);
        lemma_json_of_meta_nonempty(ms[0]);
        let r = seq![','] + inner;
        assert(parse_meta(t) == Some((ms[0], r)));
        assert(r.len() < t.len());
        assert(r[0] == ',');
        assert(r.skip(1) =~= inner);
        lemma_parse_items_round(ms.skip(1), rest);
        assert(parse_items(inner) == Some((ms.skip(1), rest)));
        assert(seq![ms[0]] + ms.skip(1) =~= ms);
    }
}

/// Parsing a rendered document gives back exactly the records that
/// were rendered.
pub proof fn lemma_connections_round_trip(ms: Seq<MetaView>)
    ensures
        parse_connections_text(json_of_metas(ms)) == Some(ms),
{
    let doc = json_of_metas(ms);
    assert(doc[0] == '[');
    let t = doc.skip(1);
    assert(t =~= json_items(ms) + seq![']']);
    if ms.len() == 0 {
        assert(t =~= seq![']']);
    } else {
        lemma_parse_items_round(ms, seq![']']);
        lemma_json_of_meta_nonempty(ms[0]);
        assert(json_items(ms).len() > 0) by {
            if ms.len() == 1 {
            } else {
                assert(json_items(ms) =~= json_of_meta(ms[0]) + seq![','] + json_items(
                    ms.skip(1),
                ));
            }
        }
        assert(t.len() > 1);
        assert(parse_items(t) == Some((ms, seq![']'])));
    }
}

/// Appends the escaped form of one character.
fn push_escaped(out: &mut String, c: char)
    ensures
        final(out)@ == old(out)@ + esc_char(c),
{
    if c == '"' {
        push_char(out, '\\');
        push_char(out, '"');
    } else if c == '\\' {
        push_char(out, '\\');
        push_char(out, '\\');
    } else if c == '\n' {
        push_char(out, '\\');
        push_char(out, 'n');
    } else if c == '\r' {
        push_char(out, '\\');
        push_char(out, 'r');
    } else if c == '\t' {
        push_char(out, '\\');
        push_char(out, 't');
    } else if (c as u32) < 32 {
        let u = c as u32;
        push_char(out, '\\');
        push_char(out, 'u');
        push_char(out, '0');
        push_char(out, '0');
        let hi: char = if u / 16 == 0 { '0' } else { '1' };
        assert(hi == hex_char((u as nat) / 16));
        push_char(out, hi);
        let d: u32 = u % 16;
        let lo: char = if d == 0 { '0' }
            else if d == 1 { '1' }
            else if d == 2 { '2' }
            else if d == 3 { '3' }
            else if d == 4 { '4' }
            else if d == 5 { '5' }
            else if d == 6 { '6' }
            else if d == 7 { '7' }
            else if d == 8 { '8' }
            else if d == 9 { '9' }
            else if d == 10 { 'a' }
            else if d == 11 { 'b' }
            else if d == 12 { 'c' }
            else if d == 13 { 'd' }
            else if d == 14 { 'e' }
            else { 'f' };
        assert(lo == hex_char((u as nat) % 16));
        push_char(out, lo);
        assert(final(out)@ =~= old(out)@ + esc_char(c));
    } else {
        push_char(out, c);
        assert(final(out)@ =~= old(out)@ + esc_char(c));
    }
    assert(final(out)@ =~= old(out)@ + esc_char(c));
}

/// Appends a JSON string literal holding the given text.
fn push_json_string(out: &mut String, s: &str)
    ensures
        final(out)@ == old(out)@ + json_string(s@),
{
    push_char(out, '"');
    let n = s.unicode_len();
    let mut i: usize = 0;
    while i < n
        invariant
            i <= n,
            n == s@.len(),
            out@ == old(out)@ + seq!['"'] + json_escape(s@.take(i as int)),
        decreases n - i,
    {
        let c = s.get_char(i);
        push_escaped(out, c);
        proof {
            assert(s@.take(i + 1) =~= s@.take(i as int) + seq![s@[i as int]]);
            lemma_json_escape_concat(s@.take(i as int), seq![s@[i as int]]);
            assert(seq![s@[i as int]].skip(1) =~= Seq::<char>::empty());
            assert(json_escape(seq![s@[i as int]]) =~= esc_char(s@[i as int]) + json_escape(
                Seq::<char>::empty(),
            ));
            assert(json_escape(seq![s@[i as int]]) =~= esc_char(s@[i as int]));
            assert(out@ =~= old(out)@ + seq!['"'] + json_escape(s@.take(i + 1)));
        }
        i = i + 1;
    }
    assert(s@.take(n as int) =~= s@);
    push_char(out, '"');
    assert(final(out)@ =~= old(out)@ + json_string(s@));
}

/// Appends the JSON object of one persisted record.
fn push_json_meta(out: &mut String, m: &ConnectionMetadata)
    ensures
        final(out)@ == old(out)@ + json_of_meta(m@),
{
    out.append("{\"name\":");
    push_json_string(out, m.name.as_str());
    out.append(",\"db_type\":");
    match m.db_type {
        DatabaseType::Sqlite => push_json_string(out, "Sqlite"),
        DatabaseType::Postgres => push_json_string(out, "Postgres"),
    }
    out.append(",\"unsafe_password\":");
    match &m.unsafe_password {
        None => out.append("null"),
        Some(p) => push_json_string(out, p.as_str()),
    }
    push_char(out, '}');
    assert(final(out)@ =~= old(out)@ + json_of_meta(m@));
}

/// The value of a hexadecimal digit character, if it is one.
fn hex_digit_val(c: char) -> (r: Option<u32>)
    ensures
        match hex_val(c) {
            None => r is None,
            Some(d) => r == Some(d as u32),
        },
{
    if c == '0' { Some(0) }
    else if c == '1' { Some(1) }
    else if c == '2' { Some(2) }
    else if c == '3' { Some(3) }
    else if c == '4' { Some(4) }
    else if c == '5' { Some(5) }
    else if c == '6' { Some(6) }
    else if c == '7' { Some(7) }
    else if c == '8' { Some(8) }
    else if c == '9' { Some(9) }
    else if c == 'a' || c == 'A' { Some(10) }
    else if c == 'b' || c == 'B' { Some(11) }
    else if c == 'c' || c == 'C' { Some(12) }
    else if c == 'd' || c == 'D' { Some(13) }
    else if c == 'e' || c == 'E' { Some(14) }
    else if c == 'f' || c == 'F' { Some(15) }
    else { None }
}

/// The control character with the given code.
fn char_from_low(u: u32) -> (c: char)
    requires
        u < 32,
    ensures
        (c as u32) == u,
{
    if u == 0 { '\u{0}' }
    else if u == 1 { '\u{1}' }
    else if u == 2 { '\u{2}' }
    else if u == 3 { '\u{3}' }
    else if u == 4 { '\u{4}' }
    else if u == 5 { '\u{5}' }
    else if u == 6 { '\u{6}' }
    else if u == 7 { '\u{7}' }
    else if u == 8 { '\u{8}' }
    else if u == 9 { '\u{9}' }
    else if u == 10 { '\u{a}' }
    else if u == 11 { '\u{b}' }
    else if u == 12 { '\u{c}' }
    else if u == 13 { '\u{d}' }
    else if u == 14 { '\u{e}' }
    else if u == 15 { '\u{f}' }
    else if u == 16 { '\u{10}' }
    else if u == 17 { '\u{11}' }
    else if u == 18 { '\u{12}' }
    else if u == 19 { '\u{13}' }
    else if u == 20 { '\u{14}' }
    else if u == 21 { '\u{15}' }
    else if u == 22 { '\u{16}' }
    else if u == 23 { '\u{17}' }
    else if u == 24 { '\u{18}' }
    else if u == 25 { '\u{19}' }
    else if u == 26 { '\u{1a}' }
    else if u == 27 { '\u{1b}' }
    else if u == 28 { '\u{1c}' }
    else if u == 29 { '\u{1d}' }
    else if u == 30 { '\u{1e}' }
    else { '\u{1f}' }
}

/// Consumes one literal at the position, if the text carries it.
fn eat_lit(v: &Vec<char>, i: usize, lit: &str) -> (r: Option<usize>)
    requires
        i <= v@.len(),
    ensures
        match r {
            Some(j) => after_prefix(v@.skip(i as int), lit@) == Some(v@.skip(j as int)) && i <= j
                <= v@.len(),
            None => after_prefix(v@.skip(i as int), lit@) is None,
        },
{
    let lv = chars_of(lit);
    let n = lv.len();
    let total = v.len();
    if n > total - i {
        return None;
    }
    let mut k: usize = 0;
    while k < n
        invariant
            k <= n,
            n == lv@.len(),
            lv@ == lit@,
            i + n <= total,
            total == v@.len(),
            forall|m: int| 0 <= m < k ==> v@[i + m] == lv@[m],
        decreases n - k,
    {
        if v[i + k] != lv[k] {
            proof {
                let s = v@.skip(i as int);
                assert(s.take(n as int)[k as int] == v@[i + k]);
                assert(s.take(n as int) != lit@);
            }
            return None;
        }
        k = k + 1;
    }
    proof {
        let s = v@.skip(i as int);
        assert(s.take(n as int) =~= lit@);
        assert(s.skip(n as int) =~= v@.skip(i + n));
    }
    Some(i + n)
}

/// Parses one JSON string literal at the position.
fn parse_string_at(v: &Vec<char>, i: usize) -> (r: Option<(String, usize)>)
    requires
        i <= v@.len(),
    ensures
        match parse_json_string(v@.skip(i as int)) {
            None => r is None,
            Some(p) => r is Some && (r->0).0@ == p.0 && (r->0).1 <= v@.len() && v@.skip(
                (r->0).1 as int,
            ) == p.1,
        },
{
    if i >= v.len() || v[i] != '"' {
        return None;
    }
    assert(v@.skip(i as int)[0] == '"');
    let ghost start = i + 1;
    assert(v@.skip(i as int).skip(1) =~= v@.skip(i + 1));
    let mut j: usize = i + 1;
    let mut content = String::new();
    loop
        invariant
            i + 1 <= j <= v@.len(),
            start == i + 1,
            i < v@.len(),
            v@.skip(i as int)[0] == '"',
            parse_json_string(v@.skip(i as int)) == parse_string_body(v@.skip(start)),
            match parse_string_body(v@.skip(j as int)) {
                Some(p) => parse_string_body(v@.skip(start)) == Some((content@ + p.0, p.1)),
                None => parse_string_body(v@.skip(start)) is None,
            },
        decreases v@.len() - j,
    {
        let ghost s = v@.skip(j as int);
        if j >= v.len() {
            assert(s.len() == 0);
            assert(parse_string_body(s) is None);
            return None;
        }
        let c = v[j];
        assert(s[0] == c);
        if c == '"' {
            assert(s.skip(1) =~= v@.skip(j + 1));
            assert(content@ + Seq::<char>::empty() =~= content@);
            return Some((content, j + 1));
        } else if c == '\\' {
            if v.len() - j < 2 {
                assert(s.len() < 2);
                assert(parse_string_body(s) is None);
                return None;
            }
            let e = v[j + 1];
            assert(s[1] == e);
            if e == '"' || e == '\\' || e == 'n' || e == 'r' || e == 't' {
                let decoded: char = if e == 'n' { '\n' }
                    else if e == 'r' { '\r' }
                    else if e == 't' { '\t' }
                    else { e };
                push_char(&mut content, decoded);
                proof {
                    assert(s.skip(2) =~= v@.skip(j + 2));
                    if let Some(p) = parse_string_body(v@.skip(j + 2)) {
                        assert(parse_string_body(s) == Some((seq![decoded] + p.0, p.1)));
                        assert(content@ + p.0 =~= (content@.drop_last() + (seq![decoded] + p.0)));
                    }
                }
                j = j + 2;
            } else if e == 'u' {
                if v.len() - j < 6 {
                    assert(s.len() < 6);
                    assert(parse_string_body(s) is None);
                    return None;
                }
                assert(s[2] == v@[j + 2] && s[3] == v@[j + 3] && s[4] == v@[j + 4]);
                assert(s[5] == v@[j + 5]);
                if v[j + 2] != '0' || v[j + 3] != '0' {
                    assert(parse_string_body(s) is None);
                    return None;
                }
                let h4 = hex_digit_val(v[j + 4]);
                let h5 = hex_digit_val(v[j + 5]);
                let (d4, d5) = match (h4, h5) {
                    (Some(a), Some(b)) => (a, b),
                    _ => {
                        assert(parse_string_body(s) is None);
                        return None;
                    },
                };
                let u: u32 = d4 * 16 + d5;
                if u >= 32 {
                    assert(parse_string_body(s) is None);
                    return None;
                }
                let decoded = char_from_low(u);
                proof {
                    vstd::utf8::char_u32_cast(decoded, u);
                }
                push_char(&mut content, decoded);
                proof {
                    assert(s.skip(6) =~= v@.skip(j + 6));
                    if let Some(p) = parse_string_body(v@.skip(j + 6)) {
                        assert(parse_string_body(s) == Some((seq![decoded] + p.0, p.1)));
                        assert(content@ + p.0 =~= (content@.drop_last() + (seq![decoded] + p.0)));
                    }
                }
                j = j + 6;
            } else {
                assert(parse_string_body(s) is None);
                return None;
            }
        } else {
            push_char(&mut content, c);
            proof {
                assert(s.skip(1) =~= v@.skip(j + 1));
                if let Some(p) = parse_string_body(v@.skip(j + 1)) {
                    assert(parse_string_body(s) == Some((seq![c] + p.0, p.1)));
                    assert(content@ + p.0 =~= (content@.drop_last() + (seq![c] + p.0)));
                }
            }
            j = j + 1;
        }
    }
}

/// Parses one record object at the position.
fn parse_meta_at(v: &Vec<char>, i: usize) -> (r: Option<(ConnectionMetadata, usize)>)
    requires
        i <= v@.len(),
    ensures
        match parse_meta(v@.skip(i as int)) {
            None => r is None,
            Some(p) => r is Some && ((r->0).0)@ == p.0 && (r->0).1 <= v@.len() && v@.skip(
                (r->0).1 as int,
            ) == p.1,
        },
{
    let i1 = match eat_lit(v, i, "{\"name\":") {
        Some(j) => j,
        None => {
            return None;
        },
    };
    let (name, i2) = match parse_string_at(v, i1) {
        Some(p) => p,
        None => {
            return None;
        },
    };
    let i3 = match eat_lit(v, i2, ",\"db_type\":") {
        Some(j) => j,
        None => {
            return None;
        },
    };
    let (dbt, i4) = match parse_string_at(v, i3) {
        Some(p) => p,
        None => {
            return None;
        },
    };
    let sqlite_text = String::from_str("Sqlite");
    let postgres_text = String::from_str("Postgres");
    let db_type: DatabaseType = if dbt == sqlite_text {
        DatabaseType::Sqlite
    } else if dbt == postgres_text {
        DatabaseType::Postgres
    } else {
        return None;
    };
    let i5 = match eat_lit(v, i4, ",\"unsafe_password\":") {
        Some(j) => j,
        None => {
            return None;
        },
    };
    let (unsafe_password, i6): (Option<String>, usize) = match eat_lit(v, i5, "null") {
        Some(j) => (None, j),
        None => match parse_string_at(v, i5) {
            Some((p, j)) => (Some(p), j),
            None => {
                return None;
            },
        },
    };
    proof {
        reveal_strlit("}");
        assert("}"@ =~= seq!['}']);
    }
    let i7 = match eat_lit(v, i6, "}") {
        Some(j) => j,
        None => {
            return None;
        },
    };
    Some((ConnectionMetadata { name, db_type, unsafe_password }, i7))
}

/// Parses a whole persisted document into its records, or nothing
/// when the text is not the store's own rendering.
pub fn parse_connections(s: &str) -> (r: Option<Vec<ConnectionMetadata>>)
    ensures
        match parse_connections_text(s@) {
            None => r is None,
            Some(vs) => r is Some && meta_views(r->0@) == vs,
        },
{
    let v = chars_of(s);
    let n = v.len();
    if n < 1 || v[0] != '[' {
        return None;
    }
    let ghost t = v@.skip(1);
    if n == 2 && v[1] == ']' {
        assert(t.len() == 1 && t[0] == ']');
        let empty_list: Vec<ConnectionMetadata> = Vec::new();
        assert(meta_views(empty_list@) =~= Seq::<MetaView>::empty());
        return Some(empty_list);
    }
    proof {
        if t.len() == 1 && t[0] == ']' {
            assert(n == 2 && v@[1] == ']');
        }
    }
    let mut out: Vec<ConnectionMetadata> = Vec::new();
    let mut i: usize = 1;
    loop
        invariant
            1 <= i <= v@.len(),
            n == v@.len(),
            v@ == s@,
            v@.len() >= 1,
            v@[0] == '[',
            t == v@.skip(1),
            !(t.len() == 1 && t[0] == ']'),
            match parse_items(v@.skip(i as int)) {
                Some(p) => parse_items(t) == Some((meta_views(out@) + p.0, p.1)),
                None => parse_items(t) is None,
            },
        decreases v@.len() - i,
    {
        let ghost s = v@.skip(i as int);
        let (m, j) = match parse_meta_at(&v, i) {
            Some(p) => p,
            None => {
                return None;
            },
        };
        if j <= i {
            proof {
                assert(v@.skip(j as int).len() >= s.len());
            }
            return None;
        }
        assert(v@.skip(j as int).len() < s.len());
        let ghost mview = m@;
        out.push(m);
        proof {
            assert(meta_views(out@) =~= meta_views(out@.drop_last()).push(mview));
        }
        if j < n && v[j] == ',' {
            proof {
                let rr = v@.skip(j as int);
                assert(rr[0] == ',');
                assert(rr.skip(1) =~= v@.skip(j + 1));
                if let Some(p) = parse_items(v@.skip(j + 1)) {
                    assert(parse_items(s) == Some((seq![mview] + p.0, p.1)));
                    assert(meta_views(out@.drop_last()) + (seq![mview] + p.0) =~= meta_views(out@)
                        + p.0);
                }
            }
            i = j + 1;
        } else {
            proof {
                let rr = v@.skip(j as int);
                assert(!(rr.len() > 0 && rr[0] == ','));
                assert(parse_items(s) == Some((seq![mview], rr)));
                assert(meta_views(out@.drop_last()) + seq![mview] =~= meta_views(out@));
                assert(parse_items(t) == Some((meta_views(out@), rr)));
            }
            if n - j == 1 && v[j] == ']' {
                assert(v@.skip(j as int).len() == 1 && v@.skip(j as int)[0] == ']');
                return Some(out);
            } else {
                proof {
                    let rr = v@.skip(j as int);
                    if rr.len() == 1 && rr[0] == ']' {
                        assert(j + 1 == n && v@[j as int] == ']');
                    }
                }
                return None;
            }
        }
    }
}

/// The persisted document for a record list.
pub fn connections_json(metas: &Vec<ConnectionMetadata>) -> (r: String)
    ensures
        r@ == json_of_metas(meta_views(metas@)),
{
    let mut out = String::new();
    push_char(&mut out, '[');
    let mut i: usize = 0;
    while i < metas.len()
        invariant
            i <= metas@.len(),
            out@ == seq!['['] + json_items(meta_views(metas@).take(i as int)),
        decreases metas@.len() - i,
    {
        if i > 0 {
            push_char(&mut out, ',');
        }
        push_json_meta(&mut out, &metas[i]);
        proof {
            let vs = meta_views(metas@);
            assert(vs[i as int] == metas@[i as int]@);
            if i == 0 {
                assert(vs.take(1).len() == 1);
                assert(vs.take(1)[0] == vs[0]);
                assert(out@ =~= seq!['['] + json_items(vs.take(1)));
            } else {
                lemma_json_items_snoc(vs.take(i + 1));
                assert(vs.take(i + 1).drop_last() =~= vs.take(i as int));
                assert(vs.take(i + 1).last() == vs[i as int]);
                assert(out@ =~= seq!['['] + json_items(vs.take(i + 1)));
            }
        }
        i = i + 1;
    }
    proof {
        assert(meta_views(metas@).take(metas@.len() as int) =~= meta_views(metas@));
    }
    push_char(&mut out, ']');
    assert(out@ =~= json_of_metas(meta_views(metas@)));
    out
}

#[verifier::external_type_specification]
#[verifier::external_body]
pub struct ExEntry(keyring::Entry);

#[verifier::external_type_specification]
#[verifier::external_body]
pub struct ExPathBuf(std::path::PathBuf);

/// Relies on keyring's `Entry::new`: binds an entry of the platform
/// credential store under a service and account name, or fails when
/// no store is available.
#[verifier::external_body]
fn keyring_entry(service: &str, name: &str) -> Option<keyring::Entry> {
    keyring::Entry::new(service, name).ok()
}

/// Relies on keyring's `Entry::set_password`: stores the secret under
/// the entry, reporting only whether the store took it.
#[verifier::external_body]
fn keyring_set(entry: &keyring::Entry, secret: &str) -> bool {
    entry.set_password(secret).is_ok()
}

/// Relies on keyring's `Entry::get_password`: the secret stored under
/// the entry, or nothing on any failure.
#[verifier::external_body]
fn keyring_get(entry: &keyring::Entry) -> Option<String> {
    entry.get_password().ok()
}

/// Relies on dirs' `config_dir`: the platform configuration
/// directory, if the platform defines one.
#[verifier::external_body]
fn platform_config_dir() -> Option<std::path::PathBuf> {
    dirs::config_dir()
}

/// Relies on std's `Path::join`: the path extended by one component.
#[verifier::external_body]
fn path_join(base: &std::path::PathBuf, leaf: &str) -> std::path::PathBuf {
    base.join(leaf)
}

/// The service under which secrets are keyed in secure storage.
pub const SERVICE_NAME: &'static str = "com.slick-dataui.app";

/// The path of the connections document: the app's own directory
/// under the platform config directory. Creating the directory is
/// file I/O and stays with the caller.
pub fn get_connections_file_path() -> (r: Option<std::path::PathBuf>) {
    match platform_config_dir() {
        None => None,
        Some(base) => {
            let dir = path_join(&base, "slick-dataui");
            Some(path_join(&dir, "connections.json"))
        },
    }
}

/// The persisted projection of one connection record: the name and
/// kind, and a plaintext fallback copy of the secret.
pub open spec fn meta_view_of_config(c: ConnectionConfig) -> MetaView {
    MetaView { name: c.name@, db_type: c.db_type, unsafe_password: Some(c.connection_string@) }
}

/// The persisted projections of a record list.
pub open spec fn saved_views(cs: Seq<ConnectionConfig>) -> Seq<MetaView> {
    cs.map_values(|c: ConnectionConfig| meta_view_of_config(c))
}

/// The persisted records for the given connections, each carrying the
/// fallback copy of its secret.
pub fn metadata_of_connections(connections: &Vec<ConnectionConfig>) -> (r: Vec<
    ConnectionMetadata,
>)
    ensures
        meta_views(r@) == saved_views(connections@),
{
    let mut r: Vec<ConnectionMetadata> = Vec::new();
    let mut i: usize = 0;
    while i < connections.len()
        invariant
            i <= connections@.len(),
            meta_views(r@) == saved_views(connections@.take(i as int)),
        decreases connections@.len() - i,
    {
        let c = &connections[i];
        let ghost prev = r@;
        r.push(
            ConnectionMetadata {
                name: c.name.clone(),
                db_type: c.db_type,
                unsafe_password: Some(c.connection_string.clone()),
            },
        );
        proof {
            assert(meta_views(prev).len() == prev.len());
            assert(saved_views(connections@.take(i as int)).len() == i);
            assert(prev.len() == i);
            assert(r@.last()@ =~~= meta_view_of_config(connections@[i as int]));
            assert forall|k: int| 0 <= k < r@.len() implies meta_views(r@)[k] == saved_views(
                connections@.take(i + 1),
            )[k] by {
                if k < i {
                    assert(r@[k] == prev[k]);
                    assert(meta_views(prev)[k] == saved_views(connections@.take(i as int))[k]);
                } else {
                    assert(r@[k] == r@.last());
                }
            }
            assert(meta_views(r@) =~~= saved_views(connections@.take(i + 1)));
        }
        i = i + 1;
    }
    proof {
        assert(connections@.take(connections@.len() as int) =~= connections@);
    }
    r
}

/// The secret a loaded record resolves to: the secure-storage secret
/// when one came back, else the plaintext fallback, else empty — a
/// record with neither loads unusable until re-entered.
pub open spec fn resolved_secret(m: MetaView, secret: Option<Seq<char>>) -> Seq<char> {
    match secret {
        Some(s) => s,
        None => match m.unsafe_password {
            Some(p) => p,
            None => Seq::empty(),
        },
    }
}

/// One loaded connection, from its persisted record and whatever the
/// secure storage returned for its name.
pub fn resolve_connection(meta: ConnectionMetadata, secret: Option<String>) -> (r:
    ConnectionConfig)
    ensures
        r.name@ == meta@.name,
        r.db_type == meta.db_type,
        r.connection_string@ == resolved_secret(meta@, match secret {
            Some(s) => Some(s@),
            None => None,
        }),
{
    let connection_string = match secret {
        Some(s) => s,
        None => match meta.unsafe_password {
            Some(p) => p,
            None => String::new(),
        },
    };
    ConnectionConfig { name: meta.name, db_type: meta.db_type, connection_string }
}

/// Saves the connections: renders the persisted document — name,
/// kind, and the fallback copy of each secret — and, best effort,
/// writes each secret into secure storage under the service and the
/// connection's name. A secure-storage failure is swallowed: the
/// document already guarantees durability. The caller writes the
/// returned document to the connections file.
pub fn save_connections(connections: &Vec<ConnectionConfig>) -> (r: String)
    ensures
        r@ == json_of_metas(saved_views(connections@)),
{
    let metas = metadata_of_connections(connections);
    let json = connections_json(&metas);
    let mut i: usize = 0;
    while i < connections.len()
        decreases connections@.len() - i,
    {
        let c = &connections[i];
        if let Some(entry) = keyring_entry(SERVICE_NAME, c.name.as_str()) {
            let _stored = keyring_set(&entry, c.connection_string.as_str());
        }
        i = i + 1;
    }
    json
}

/// Loads the connections from the document's text, or from nowhere.
/// A missing document, like one that is not the store's own
/// rendering, yields a clean-slate empty list. Each parsed record's
/// secret is taken from secure storage when available, with the
/// documented fallback otherwise.
pub fn load_connections(json: Option<&str>) -> (r: Vec<ConnectionConfig>)
    ensures
        json is None ==> r@.len() == 0,
        json is Some && parse_connections_text(json->0@) is None ==> r@.len() == 0,
        json is Some && parse_connections_text(json->0@) is Some ==> {
            let vs = parse_connections_text(json->0@)->0;
            &&& r@.len() == vs.len()
            &&& forall|i: int|
                0 <= i < vs.len() ==> (#[trigger] r@[i]).name@ == vs[i].name && r@[i].db_type
                    == vs[i].db_type
        },
{
    let text = match json {
        None => {
            return Vec::new();
        },
        Some(t) => t,
    };
    let metas = match parse_connections(text) {
        None => {
            return Vec::new();
        },
        Some(ms) => ms,
    };
    let ghost metas_seq = metas@;
    let mut metas = metas;
    let mut r: Vec<ConnectionConfig> = Vec::new();
    while metas.len() > 0
        invariant
            metas_seq.len() == r@.len() + metas@.len(),
            forall|k: int| 0 <= k < metas@.len() ==> metas@[k] == metas_seq[r@.len() + k],
            forall|i: int|
                0 <= i < r@.len() ==> (#[trigger] r@[i]).name@ == metas_seq[i]@.name && r@[i].db_type
                    == metas_seq[i].db_type,
        decreases metas@.len(),
    {
        let meta = metas.remove(0);
        let secret = match keyring_entry(SERVICE_NAME, meta.name.as_str()) {
            Some(entry) => keyring_get(&entry),
            None => None,
        };
        r.push(resolve_connection(meta, secret));
        proof {
            assert(forall|k: int|
                0 <= k < metas@.len() ==> metas@[k] == metas_seq[r@.len() + k]);
        }
    }
    proof {
        if let Some(vs) = parse_connections_text(text@) {
            assert(vs == meta_views(metas_seq));
            assert(forall|i: int|
                0 <= i < vs.len() ==> vs[i] == #[trigger] metas_seq[i]@);
        }
    }
    r
}

/// The credential round trip: saving connections and loading the
/// rendered document with secure storage unavailable gives back every
/// record — the same name, the same kind, and the same connection
/// string, through the plaintext fallback.
pub proof fn lemma_credential_round_trip(cs: Seq<ConnectionConfig>)
    ensures
        ({
            let parsed = parse_connections_text(json_of_metas(saved_views(cs)));
            &&& parsed is Some
            &&& parsed->0.len() == cs.len()
            &&& forall|i: int|
                0 <= i < cs.len() ==> {
                    let m = #[trigger] parsed->0[i];
                    &&& m.name == cs[i].name@
                    &&& m.db_type == cs[i].db_type
                    &&& resolved_secret(m, None) == cs[i].connection_string@
                }
        }),
{
    lemma_connections_round_trip(saved_views(cs));
}

} // verus!
