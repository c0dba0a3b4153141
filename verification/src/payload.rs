//! Messages as JSON texts.
//!
//! A message is written as an object, `{"type":"chat","name":"...","text":"..."}`. What is
//! read may have its members in any order, with others among them and white space between
//! them; `name` and `text` may be missing, and no member of a message may occur twice. The
//! values may also stand in a list, in the order in which they are written; and the type
//! may stand in an object of its own, as in `{"chat":null}`.
use vstd::prelude::*;
use vstd::utf8::*;

use crate::json;
use crate::text;
use crate::wire::{MessageType, WireMessage, WireView};

verus! {

// ---------------------------------------------------------------------------
// Writing
// ---------------------------------------------------------------------------

/// How a message type is written.
pub open spec fn kind_name(kind: MessageType) -> Seq<char> {
    match kind {
        MessageType::Chat => "chat"@,
        MessageType::System => "system"@,
        MessageType::Ping => "ping"@,
        MessageType::Pong => "pong"@,
    }
}

/// The members of a message's JSON object.
pub open spec fn message_fields(m: WireView) -> Seq<(Seq<char>, Seq<char>)> {
    seq![("type"@, kind_name(m.kind)), ("name"@, m.name), ("text"@, m.text)]
}

/// The bytes of a message: its JSON object in UTF-8.
pub open spec fn payload_of(m: WireView) -> Seq<u8> {
    encode_utf8(json::object_text(message_fields(m)))
}

/// Writes a message as a JSON object.
pub fn write_message(msg: &WireMessage) -> (r: String)
    ensures
        encode_utf8(r@) == payload_of(msg@),
        payload_of(msg@).len() > 0,
        valid_utf8(payload_of(msg@)),
{
    let kind = match msg.kind {
        MessageType::Chat => "chat",
        MessageType::System => "system",
        MessageType::Ping => "ping",
        MessageType::Pong => "pong",
    };
    let mut out = String::new();
    out.push('{');
    append_member(&mut out, "type", kind);
    out.push(',');
    append_member(&mut out, "name", msg.name.as_str());
    out.push(',');
    append_member(&mut out, "text", msg.text.as_str());
    out.push('}');
    proof {
        let fields = message_fields(msg@);
        assert(fields.skip(1).skip(1)[0] == fields[2]);
        assert(fields.skip(1)[0] == fields[1]);
        reveal_with_fuel(json::members_text, 4);
        assert(out@ =~= json::object_text(fields));
        lemma_payload_shape(msg@);
    }
    out
}

fn append_member(out: &mut String, key: &str, value: &str)
    ensures
        final(out)@ == old(out)@ + json::member_text((key@, value@)),
{
    let key = json::quote(key);
    let value = json::quote(value);
    out.append(key.as_str());
    out.push(':');
    out.append(value.as_str());
    assert(out@ =~= old(out)@ + (key@ + seq![':'] + value@));
}

// ---------------------------------------------------------------------------
// What is read
// ---------------------------------------------------------------------------

/// The message type that is written so, if there is one.
pub open spec fn kind_of(name: Seq<char>) -> Option<MessageType> {
    if name == "chat"@ {
        Some(MessageType::Chat)
    } else if name == "system"@ {
        Some(MessageType::System)
    } else if name == "ping"@ {
        Some(MessageType::Ping)
    } else if name == "pong"@ {
        Some(MessageType::Pong)
    } else {
        None
    }
}

/// The message type that is written so, or what is wrong with it.
pub open spec fn kind_named(name: Seq<char>) -> Result<MessageType, Seq<char>> {
    match kind_of(name) {
        Some(kind) => Ok(kind),
        None => Err(
            "unknown variant `"@ + name + "`, expected one of `chat`, `system`, `ping`, `pong`"@,
        ),
    }
}

/// The message type that is written so, or what is wrong with it.
pub fn read_kind(name: &str) -> (r: Result<MessageType, String>)
    ensures
        match kind_named(name@) {
            Ok(kind) => r == Ok::<MessageType, String>(kind),
            Err(reason) => r matches Err(e) && e@ == reason,
        },
{
    if text::same_text(name, "chat") {
        Ok(MessageType::Chat)
    } else if text::same_text(name, "system") {
        Ok(MessageType::System)
    } else if text::same_text(name, "ping") {
        Ok(MessageType::Ping)
    } else if text::same_text(name, "pong") {
        Ok(MessageType::Pong)
    } else {
        Err(
            text::concat3(
                "unknown variant `",
                name,
                "`, expected one of `chat`, `system`, `ping`, `pong`",
            ),
        )
    }
}

/// What was read of a message's members so far.
pub struct Fields {
    pub kind: Option<MessageType>,
    pub name: Option<String>,
    pub text: Option<String>,
}

/// [`Fields`] with their texts as characters.
#[verifier::ext_equal]
pub struct FieldsView {
    pub kind: Option<MessageType>,
    pub name: Option<Seq<char>>,
    pub text: Option<Seq<char>>,
}

impl View for Fields {
    type V = FieldsView;

    open spec fn view(&self) -> FieldsView {
        FieldsView {
            kind: self.kind,
            name: text::opt_text(self.name),
            text: text::opt_text(self.text),
        }
    }
}

/// No member was read.
pub open spec fn no_fields() -> FieldsView {
    FieldsView { kind: None, name: None, text: None }
}

/// A text that may be missing.
pub open spec fn or_empty(o: Option<Seq<char>>) -> Seq<char> {
    match o {
        Some(s) => s,
        None => Seq::empty(),
    }
}

/// The message whose members were read.
pub open spec fn completed(f: FieldsView) -> Result<WireView, Seq<char>> {
    match f.kind {
        None => Err("missing field `type`"@),
        Some(kind) => Ok(WireView { kind, name: or_empty(f.name), text: or_empty(f.text) }),
    }
}

/// The view of a message that was read, or of what is wrong with it.
pub open spec fn read_view(r: Result<WireMessage, String>) -> Result<WireView, Seq<char>> {
    match r {
        Ok(m) => Ok(m@),
        Err(e) => Err(e@),
    }
}

impl Fields {
    /// No member was read.
    pub fn new() -> (f: Self)
        ensures
            f@ == no_fields(),
    {
        Fields { kind: None, name: None, text: None }
    }

    /// The message whose members were read. A text that is missing is empty.
    pub fn complete(self) -> (r: Result<WireMessage, String>)
        ensures
            read_view(r) == completed(self@),
    {
        let name = match self.name {
            Some(s) => s,
            None => String::new(),
        };
        let text = match self.text {
            Some(s) => s,
            None => String::new(),
        };
        match self.kind {
            None => Err("missing field `type`".to_owned()),
            Some(kind) => {
                let m = WireMessage { kind, name, text };
                assert(m@.name =~= or_empty(self@.name));
                assert(m@.text =~= or_empty(self@.text));
                Ok(m)
            },
        }
    }
}

/// The message type at the front of some bytes, and the bytes behind it.
pub open spec fn kind_at(s: Seq<u8>) -> Result<(MessageType, Seq<u8>), Seq<char>> {
    if json::starts(s, json::OPEN_OBJECT) {
        wrapped_kind_at(json::past(s))
    } else {
        match json::text_at(s) {
            None => Err("expected value"@),
            Some((name, rest)) => match kind_named(name) {
                Err(e) => Err(e),
                Ok(kind) => Ok((kind, rest)),
            },
        }
    }
}

/// The message type that is the only name of an object, behind the opening brace.
pub open spec fn wrapped_kind_at(s: Seq<u8>) -> Result<(MessageType, Seq<u8>), Seq<char>> {
    match json::text_at(s) {
        None => Err("expected value"@),
        Some((name, rest)) => match kind_named(name) {
            Err(e) => Err(e),
            Ok(kind) => if !json::starts(rest, json::COLON) {
                Err("expected `:`"@)
            } else {
                match json::null_at(json::past(rest)) {
                    None => Err("invalid type, expected unit"@),
                    Some(rest) => if json::starts(rest, json::CLOSE_OBJECT) {
                        Ok((kind, json::past(rest)))
                    } else {
                        Err("expected value"@)
                    },
                }
            },
        },
    }
}

/// The value of a member, and the bytes behind it. The value of a member that is none of
/// a message's is passed over.
pub open spec fn field_at(key: Seq<char>, s: Seq<u8>, f: FieldsView) -> Result<
    (FieldsView, Seq<u8>),
    Seq<char>,
> {
    if key == "type"@ {
        if f.kind is Some {
            Err("duplicate field `type`"@)
        } else {
            match kind_at(s) {
                Err(e) => Err(e),
                Ok((kind, rest)) => Ok((FieldsView { kind: Some(kind), ..f }, rest)),
            }
        }
    } else if key == "name"@ {
        if f.name is Some {
            Err("duplicate field `name`"@)
        } else {
            match json::text_at(s) {
                None => Err("invalid type, expected a string"@),
                Some((x, rest)) => Ok((FieldsView { name: Some(x), ..f }, rest)),
            }
        }
    } else if key == "text"@ {
        if f.text is Some {
            Err("duplicate field `text`"@)
        } else {
            match json::text_at(s) {
                None => Err("invalid type, expected a string"@),
                Some((x, rest)) => Ok((FieldsView { text: Some(x), ..f }, rest)),
            }
        }
    } else {
        match json::value_at(s) {
            None => Err("expected value"@),
            Some(rest) => Ok((f, rest)),
        }
    }
}

/// A member, and the bytes behind it.
pub open spec fn member_at(s: Seq<u8>, f: FieldsView) -> Result<(FieldsView, Seq<u8>), Seq<char>> {
    match json::text_at(s) {
        None => Err("key must be a string"@),
        Some((key, rest)) => if json::starts(rest, json::COLON) {
            field_at(key, json::past(rest), f)
        } else {
            Err("expected `:`"@)
        },
    }
}

/// The members of an object up to the closing brace, and the bytes behind it.
pub open spec fn members_at(s: Seq<u8>, f: FieldsView) -> Result<
    (FieldsView, Seq<u8>),
    Seq<char>,
>
    decreases s.len(),
{
    match member_at(s, f) {
        Err(e) => Err(e),
        Ok((g, rest)) => if json::starts(rest, json::COMMA) {
            proof {
                lemma_member_len(s, f);
                json::lemma_after_space(rest);
            }
            members_at(json::past(rest), g)
        } else if json::starts(rest, json::CLOSE_OBJECT) {
            Ok((g, json::past(rest)))
        } else {
            Err("expected `,` or `}`"@)
        },
    }
}

/// The message in an object, behind the opening brace, and the bytes behind it.
pub open spec fn object_at(s: Seq<u8>) -> Result<(WireView, Seq<u8>), Seq<char>> {
    let read = if json::starts(s, json::CLOSE_OBJECT) {
        Ok((no_fields(), json::past(s)))
    } else {
        members_at(s, no_fields())
    };
    match read {
        Err(e) => Err(e),
        Ok((f, rest)) => match completed(f) {
            Err(e) => Err(e),
            Ok(m) => Ok((m, rest)),
        },
    }
}

/// The next text of a list, if the list goes on, and the bytes behind it.
pub open spec fn item_at(s: Seq<u8>) -> Result<(Option<Seq<char>>, Seq<u8>), Seq<char>> {
    if json::starts(s, json::COMMA) {
        match json::text_at(json::past(s)) {
            None => Err("invalid type, expected a string"@),
            Some((x, rest)) => Ok((Some(x), rest)),
        }
    } else {
        Ok((None, s))
    }
}

/// The message in a list, behind the opening bracket, and the bytes behind it. What is
/// missing at the end of the list is empty, but for the type.
pub open spec fn list_at(s: Seq<u8>) -> Result<(WireView, Seq<u8>), Seq<char>> {
    if json::starts(s, json::CLOSE_LIST) {
        Err("invalid length 0, expected struct WireMessage with 3 elements"@)
    } else {
        match kind_at(s) {
            Err(e) => Err(e),
            Ok((kind, rest)) => match item_at(rest) {
                Err(e) => Err(e),
                Ok((name, rest)) => match item_at(rest) {
                    Err(e) => Err(e),
                    Ok((text, rest)) => if json::starts(rest, json::CLOSE_LIST) {
                        Ok(
                            (
                                WireView { kind, name: or_empty(name), text: or_empty(text) },
                                json::past(rest),
                            ),
                        )
                    } else {
                        Err("expected `,` or `]`"@)
                    },
                },
            },
        }
    }
}

/// The message in some bytes that are a JSON text, or why it is none.
pub open spec fn message_text(payload: Seq<u8>) -> Result<WireView, Seq<char>> {
    let read = if json::starts(payload, json::OPEN_OBJECT) {
        object_at(json::past(payload))
    } else if json::starts(payload, json::OPEN_LIST) {
        list_at(json::past(payload))
    } else {
        Err("invalid type, expected struct WireMessage"@)
    };
    match read {
        Err(e) => Err(e),
        Ok((m, rest)) => if json::after_space(rest).len() == 0 {
            Ok(m)
        } else {
            Err("trailing characters"@)
        },
    }
}

/// The message in some bytes, or why there is none.
pub open spec fn message_read(payload: Seq<u8>) -> Result<WireView, Seq<char>> {
    match json::json_fault(payload) {
        Some(reason) => Err(reason),
        None => message_text(payload),
    }
}

// ---------------------------------------------------------------------------
// Lengths
// ---------------------------------------------------------------------------

proof fn lemma_kind_len(s: Seq<u8>)
    ensures
        kind_at(s) matches Ok((_, rest)) ==> rest.len() <= s.len(),
{
    json::lemma_after_space(s);
    if json::starts(s, json::OPEN_OBJECT) {
        let t = json::past(s);
        if let Some((_, rest)) = json::text_at(t) {
            json::lemma_after_space(rest);
            json::lemma_after_space(json::past(rest));
            if let Some(rest) = json::null_at(json::past(rest)) {
                json::lemma_after_space(rest);
            }
        }
    }
}

/// A member takes up at least one byte.
pub proof fn lemma_member_len(s: Seq<u8>, f: FieldsView)
    ensures
        member_at(s, f) matches Ok((_, rest)) ==> rest.len() < s.len(),
{
    if let Some((_, rest)) = json::text_at(s) {
        json::lemma_after_space(rest);
        lemma_kind_len(json::past(rest));
    }
}

// ---------------------------------------------------------------------------
// What was written
// ---------------------------------------------------------------------------

/// The object of a message from one of its members on.
pub open spec fn tail(m: WireView, k: int) -> Seq<char> {
    json::members_text(message_fields(m).skip(k)) + seq!['}']
}

/// What follows one of the members in the object of a message.
pub open spec fn after_member(m: WireView, k: int) -> Seq<char> {
    if k < 2 {
        seq![','] + tail(m, k + 1)
    } else {
        seq!['}']
    }
}

/// The first members of a message.
pub open spec fn partial(m: WireView, k: int) -> FieldsView {
    FieldsView {
        kind: if k > 0 {
            Some(m.kind)
        } else {
            None
        },
        name: if k > 1 {
            Some(m.name)
        } else {
            None
        },
        text: if k > 2 {
            Some(m.text)
        } else {
            None
        },
    }
}

proof fn lemma_payload_shape(m: WireView)
    ensures
        payload_of(m) == encode_utf8(seq!['{'] + tail(m, 0)),
        payload_of(m).len() > 0,
        valid_utf8(payload_of(m)),
{
    let fields = message_fields(m);
    assert(fields.skip(0) =~= fields);
    assert(json::object_text(fields) =~= seq!['{'] + tail(m, 0));
    json::lemma_starts('{', tail(m, 0));
    encode_utf8_valid_utf8(json::object_text(fields));
}

proof fn lemma_tail(m: WireView, k: int)
    requires
        0 <= k < 3,
    ensures
        tail(m, k) == json::quoted(message_fields(m)[k].0) + (seq![':'] + (json::quoted(
            message_fields(m)[k].1,
        ) + after_member(m, k))),
{
    let fields = message_fields(m);
    let rest = fields.skip(k);
    assert(rest[0] == fields[k]);
    assert(rest.skip(1) =~= fields.skip(k + 1));
    assert(tail(m, k) =~= json::quoted(fields[k].0) + (seq![':'] + (json::quoted(fields[k].1)
        + after_member(m, k))));
}

proof fn lemma_names()
    ensures
        forall|kind: MessageType| kind_of(#[trigger] kind_name(kind)) == Some(kind),
        "type"@ != "name"@,
        "type"@ != "text"@,
        "name"@ != "text"@,
{
    reveal_strlit("type");
    reveal_strlit("name");
    reveal_strlit("text");
    assert("type"@[1] != "name"@[1]);
    assert("type"@[1] != "text"@[1]);
    assert("name"@[0] != "text"@[0]);
    reveal_strlit("chat");
    reveal_strlit("system");
    reveal_strlit("ping");
    reveal_strlit("pong");
    assert("chat"@[0] != "system"@[0]);
    assert("chat"@[0] != "ping"@[0]);
    assert("chat"@[0] != "pong"@[0]);
    assert("system"@[0] != "ping"@[0]);
    assert("system"@[0] != "pong"@[0]);
    assert("ping"@[1] != "pong"@[1]);
}

// ---------------------------------------------------------------------------
// Reading
// ---------------------------------------------------------------------------

/// The view of a message type that was read, with the bytes behind it.
pub open spec fn kind_result(r: Result<(MessageType, &[u8]), String>) -> Result<
    (MessageType, Seq<u8>),
    Seq<char>,
> {
    match r {
        Ok((kind, rest)) => Ok((kind, rest@)),
        Err(e) => Err(e@),
    }
}

/// The view of members that were read, with the bytes behind them.
pub open spec fn fields_result(r: Result<(Fields, &[u8]), String>) -> Result<
    (FieldsView, Seq<u8>),
    Seq<char>,
> {
    match r {
        Ok((f, rest)) => Ok((f@, rest@)),
        Err(e) => Err(e@),
    }
}

/// The view of a text of a list, with the bytes behind it.
pub open spec fn item_result(r: Result<(Option<String>, &[u8]), String>) -> Result<
    (Option<Seq<char>>, Seq<u8>),
    Seq<char>,
> {
    match r {
        Ok((x, rest)) => Ok((text::opt_text(x), rest@)),
        Err(e) => Err(e@),
    }
}

/// The view of a message that was read, with the bytes behind it.
pub open spec fn message_rest(r: Result<(WireMessage, &[u8]), String>) -> Result<
    (WireView, Seq<u8>),
    Seq<char>,
> {
    match r {
        Ok((m, rest)) => Ok((m@, rest@)),
        Err(e) => Err(e@),
    }
}

fn read_wrapped_kind<'a>(s: &'a [u8]) -> (r: Result<(MessageType, &'a [u8]), String>)
    ensures
        kind_result(r) == wrapped_kind_at(s@),
{
    let (name, rest) = match json::read_text(s) {
        None => return Err("expected value".to_owned()),
        Some(read) => read,
    };
    let kind = match read_kind(name.as_str()) {
        Err(e) => return Err(e),
        Ok(kind) => kind,
    };
    let rest = match json::eat(rest, json::COLON) {
        None => return Err("expected `:`".to_owned()),
        Some(rest) => rest,
    };
    let rest = match json::eat_null(rest) {
        None => return Err("invalid type, expected unit".to_owned()),
        Some(rest) => rest,
    };
    match json::eat(rest, json::CLOSE_OBJECT) {
        None => Err("expected value".to_owned()),
        Some(rest) => Ok((kind, rest)),
    }
}

/// Reads the message type at the front of some bytes. A type that was written is read
/// back, whatever follows it.
fn read_kind_at<'a>(s: &'a [u8]) -> (r: Result<(MessageType, &'a [u8]), String>)
    ensures
        kind_result(r) == kind_at(s@),
        forall|kind: MessageType, t: Seq<char>|
            s@ == encode_utf8(#[trigger] (json::quoted(kind_name(kind)) + t)) ==> kind_at(s@)
                == Ok::<(MessageType, Seq<u8>), Seq<char>>((kind, encode_utf8(t))),
{
    proof {
        lemma_names();
        assert forall|kind: MessageType, t: Seq<char>|
            s@ == encode_utf8(#[trigger] (json::quoted(kind_name(kind)) + t)) implies json::starts(
            s@,
            json::QUOTE,
        ) by {
            json::lemma_quoted_starts(kind_name(kind), t);
        }
    }
    if let Some(rest) = json::eat(s, json::OPEN_OBJECT) {
        return read_wrapped_kind(rest);
    }
    let (name, rest) = match json::read_text(s) {
        None => return Err("expected value".to_owned()),
        Some(read) => read,
    };
    match read_kind(name.as_str()) {
        Err(e) => Err(e),
        Ok(kind) => Ok((kind, rest)),
    }
}

/// Reads the value of a member. A member that was written is read back, whatever follows
/// it.
fn read_field<'a>(key: &str, s: &'a [u8], f: Fields) -> (r: Result<(Fields, &'a [u8]), String>)
    ensures
        fields_result(r) == field_at(key@, s@, f@),
        forall|m: WireView, k: int, t: Seq<char>|
            0 <= k < 3 && f@ == partial(m, k) && key@ == message_fields(m)[k].0 && s@
                == encode_utf8(#[trigger] (json::quoted(message_fields(m)[k].1) + t)) ==> field_at(
                key@,
                s@,
                f@,
            ) == Ok::<(FieldsView, Seq<u8>), Seq<char>>((partial(m, k + 1), encode_utf8(t))),
{
    proof {
        lemma_names();
    }
    if text::same_text(key, "type") {
        if f.kind.is_some() {
            return Err("duplicate field `type`".to_owned());
        }
        let read = read_kind_at(s);
        proof {
            assert forall|m: WireView, k: int, t: Seq<char>|
                0 <= k < 3 && f@ == partial(m, k) && key@ == message_fields(m)[k].0 && s@
                    == encode_utf8(
                    #[trigger] (json::quoted(message_fields(m)[k].1) + t),
                ) implies field_at(key@, s@, f@) == Ok::<(FieldsView, Seq<u8>), Seq<char>>(
                (partial(m, k + 1), encode_utf8(t)),
            ) by {
                assert(k == 0);
                assert(json::quoted(message_fields(m)[k].1) + t == json::quoted(
                    kind_name(m.kind),
                ) + t);
                assert(kind_at(s@) == Ok::<(MessageType, Seq<u8>), Seq<char>>(
                    (m.kind, encode_utf8(t)),
                ));
            }
        }
        match read {
            Err(e) => Err(e),
            Ok((kind, rest)) => Ok((Fields { kind: Some(kind), name: f.name, text: f.text }, rest)),
        }
    } else if text::same_text(key, "name") {
        if f.name.is_some() {
            return Err("duplicate field `name`".to_owned());
        }
        match json::read_text(s) {
            None => Err("invalid type, expected a string".to_owned()),
            Some((x, rest)) => Ok((Fields { kind: f.kind, name: Some(x), text: f.text }, rest)),
        }
    } else if text::same_text(key, "text") {
        if f.text.is_some() {
            return Err("duplicate field `text`".to_owned());
        }
        match json::read_text(s) {
            None => Err("invalid type, expected a string".to_owned()),
            Some((x, rest)) => Ok((Fields { kind: f.kind, name: f.name, text: Some(x) }, rest)),
        }
    } else {
        match json::skip_value(s) {
            None => Err("expected value".to_owned()),
            Some(rest) => Ok((f, rest)),
        }
    }
}

/// Reads a member.
fn read_member<'a>(s: &'a [u8], f: Fields) -> (r: Result<(Fields, &'a [u8]), String>)
    ensures
        fields_result(r) == member_at(s@, f@),
        forall|m: WireView, k: int|
            0 <= k < 3 && f@ == partial(m, k) && s@ == encode_utf8(#[trigger] tail(m, k))
                ==> member_at(s@, f@) == Ok::<(FieldsView, Seq<u8>), Seq<char>>(
                (partial(m, k + 1), encode_utf8(after_member(m, k))),
            ),
{
    let ghost before = f@;
    let read = json::read_text(s);
    proof {
        assert forall|m: WireView, k: int|
            0 <= k < 3 && s@ == encode_utf8(#[trigger] tail(m, k)) implies json::text_at(s@)
            == Some(
            (
                message_fields(m)[k].0,
                encode_utf8(seq![':'] + (json::quoted(message_fields(m)[k].1) + after_member(m, k))),
            ),
        ) by {
            lemma_tail(m, k);
        }
    }
    let (key, rest) = match read {
        None => return Err("key must be a string".to_owned()),
        Some(read) => read,
    };
    proof {
        assert forall|m: WireView, k: int|
            0 <= k < 3 && s@ == encode_utf8(#[trigger] tail(m, k)) implies json::starts(
            rest@,
            json::COLON,
        ) && json::past(rest@) == encode_utf8(
            json::quoted(message_fields(m)[k].1) + after_member(m, k),
        ) by {
            json::lemma_starts(
                ':',
                json::quoted(message_fields(m)[k].1) + after_member(m, k),
            );
        }
    }
    match json::eat(rest, json::COLON) {
        None => Err("expected `:`".to_owned()),
        Some(value) => {
            let r = read_field(key.as_str(), value, f);
            proof {
                assert forall|m: WireView, k: int|
                    0 <= k < 3 && before == partial(m, k) && s@ == encode_utf8(
                        #[trigger] tail(m, k),
                    ) implies member_at(s@, before) == Ok::<(FieldsView, Seq<u8>), Seq<char>>(
                    (partial(m, k + 1), encode_utf8(after_member(m, k))),
                ) by {
                    assert(value@ == encode_utf8(
                        json::quoted(message_fields(m)[k].1) + after_member(m, k),
                    ));
                }
            }
            r
        },
    }
}

/// Reads the members of an object up to the closing brace.
fn read_members<'a>(s: &'a [u8]) -> (r: Result<(Fields, &'a [u8]), String>)
    ensures
        fields_result(r) == members_at(s@, no_fields()),
        forall|m: WireView|
            s@ == encode_utf8(#[trigger] tail(m, 0)) ==> members_at(s@, no_fields()) == Ok::<
                (FieldsView, Seq<u8>),
                Seq<char>,
            >((partial(m, 3), Seq::empty())),
{
    let mut rest = s;
    let mut f = Fields::new();
    let ghost mut k: int = 0;
    loop
        invariant
            members_at(s@, no_fields()) == members_at(rest@, f@),
            forall|m: WireView|
                s@ == encode_utf8(#[trigger] tail(m, 0)) ==> 0 <= k < 3 && f@ == partial(m, k)
                    && rest@ == encode_utf8(tail(m, k)),
        decreases rest@.len(),
    {
        let ghost before = (rest@, f@);
        let (g, after) = match read_member(rest, f) {
            Err(e) => return Err(e),
            Ok(read) => read,
        };
        proof {
            lemma_member_len(before.0, before.1);
            json::lemma_after_space(after@);
            assert forall|m: WireView| s@ == encode_utf8(#[trigger] tail(m, 0)) implies g@
                == partial(m, k + 1) && (if k < 2 {
                json::starts(after@, json::COMMA) && json::past(after@) == encode_utf8(tail(m, k + 1))
            } else {
                json::starts(after@, json::CLOSE_OBJECT) && json::past(after@) == Seq::<u8>::empty()
            }) by {
                assert(before.0 == encode_utf8(tail(m, k)));
                if k < 2 {
                    json::lemma_starts(',', tail(m, k + 1));
                } else {
                    json::lemma_starts('}', Seq::empty());
                    assert(seq!['}'] + Seq::<char>::empty() =~= seq!['}']);
                    assert(encode_utf8(Seq::<char>::empty()) =~= Seq::<u8>::empty());
                }
            }
        }
        if let Some(next) = json::eat(after, json::COMMA) {
            rest = next;
            f = g;
            proof {
                k = k + 1;
            }
        } else {
            return match json::eat(after, json::CLOSE_OBJECT) {
                None => Err("expected `,` or `}`".to_owned()),
                Some(next) => Ok((g, next)),
            };
        }
    }
}

/// Reads the message in an object, behind the opening brace.
fn read_object<'a>(s: &'a [u8]) -> (r: Result<(WireMessage, &'a [u8]), String>)
    ensures
        message_rest(r) == object_at(s@),
        forall|m: WireView|
            s@ == encode_utf8(#[trigger] tail(m, 0)) ==> object_at(s@) == Ok::<
                (WireView, Seq<u8>),
                Seq<char>,
            >((m, Seq::empty())),
{
    proof {
        assert forall|m: WireView| s@ == encode_utf8(#[trigger] tail(m, 0)) implies json::starts(
            s@,
            json::QUOTE,
        ) by {
            lemma_tail(m, 0);
            json::lemma_quoted_starts(
                message_fields(m)[0].0,
                seq![':'] + (json::quoted(message_fields(m)[0].1) + after_member(m, 0)),
            );
        }
    }
    let read = match json::eat(s, json::CLOSE_OBJECT) {
        Some(rest) => Ok((Fields::new(), rest)),
        None => read_members(s),
    };
    match read {
        Err(e) => Err(e),
        Ok((f, rest)) => match f.complete() {
            Err(e) => Err(e),
            Ok(m) => Ok((m, rest)),
        },
    }
}

/// Reads the next text of a list, if the list goes on.
fn read_item<'a>(s: &'a [u8]) -> (r: Result<(Option<String>, &'a [u8]), String>)
    ensures
        item_result(r) == item_at(s@),
{
    match json::eat(s, json::COMMA) {
        None => Ok((None, s)),
        Some(rest) => match json::read_text(rest) {
            None => Err("invalid type, expected a string".to_owned()),
            Some((x, rest)) => Ok((Some(x), rest)),
        },
    }
}

/// Reads the message in a list, behind the opening bracket.
fn read_list<'a>(s: &'a [u8]) -> (r: Result<(WireMessage, &'a [u8]), String>)
    ensures
        message_rest(r) == list_at(s@),
{
    if json::eat(s, json::CLOSE_LIST).is_some() {
        return Err("invalid length 0, expected struct WireMessage with 3 elements".to_owned());
    }
    let (kind, rest) = match read_kind_at(s) {
        Err(e) => return Err(e),
        Ok(read) => read,
    };
    let (name, rest) = match read_item(rest) {
        Err(e) => return Err(e),
        Ok(read) => read,
    };
    let (text, rest) = match read_item(rest) {
        Err(e) => return Err(e),
        Ok(read) => read,
    };
    match json::eat(rest, json::CLOSE_LIST) {
        None => Err("expected `,` or `]`".to_owned()),
        Some(rest) => match (Fields { kind: Some(kind), name, text }).complete() {
            Err(e) => Err(e),
            Ok(m) => Ok((m, rest)),
        },
    }
}

/// Reads the message in some bytes. A message that was written is read back.
pub fn read_message(payload: &[u8]) -> (r: Result<WireMessage, String>)
    ensures
        read_view(r) == message_read(payload@),
        forall|m: WireView|
            payload@ == #[trigger] payload_of(m) ==> read_view(r) == Ok::<WireView, Seq<char>>(m),
{
    proof {
        assert forall|m: WireView| payload@ == #[trigger] payload_of(m) implies json::starts(
            payload@,
            json::OPEN_OBJECT,
        ) && json::past(payload@) == encode_utf8(tail(m, 0)) by {
            lemma_payload_shape(m);
            json::lemma_starts('{', tail(m, 0));
        }
    }
    match json::find_fault(payload) {
        Some(reason) => return Err(reason),
        None => {},
    }
    let read = if let Some(rest) = json::eat(payload, json::OPEN_OBJECT) {
        read_object(rest)
    } else if let Some(rest) = json::eat(payload, json::OPEN_LIST) {
        read_list(rest)
    } else {
        Err("invalid type, expected struct WireMessage".to_owned())
    };
    match read {
        Err(e) => Err(e),
        Ok((m, rest)) => if json::at_end(rest) {
            Ok(m)
        } else {
            Err("trailing characters".to_owned())
        },
    }
}

// ---------------------------------------------------------------------------
// Laws
// ---------------------------------------------------------------------------

/// A message is written as a JSON object of three texts: what sort of message it is, its
/// name and its text, in that order and with nothing between them.
pub proof fn message_is_written_out(m: WireView)
    ensures
        ({
            let kind = match m.kind {
                MessageType::Chat => "chat"@,
                MessageType::System => "system"@,
                MessageType::Ping => "ping"@,
                MessageType::Pong => "pong"@,
            };
            payload_of(m) == encode_utf8(
                seq!['{'] + (json::quoted("type"@) + seq![':'] + json::quoted(kind) + seq![',']
                    + json::quoted("name"@) + seq![':'] + json::quoted(m.name) + seq![',']
                    + json::quoted("text"@) + seq![':'] + json::quoted(m.text)) + seq!['}'],
            )
        }),
{
    let fields = message_fields(m);
    assert(fields.skip(1).skip(1)[0] == fields[2]);
    assert(fields.skip(1)[0] == fields[1]);
    reveal_with_fuel(json::members_text, 4);
    assert(json::object_text(fields) =~= seq!['{'] + (json::quoted("type"@) + seq![':']
        + json::quoted(kind_name(m.kind)) + seq![','] + json::quoted("name"@) + seq![':']
        + json::quoted(m.name) + seq![','] + json::quoted("text"@) + seq![':'] + json::quoted(
        m.text,
    )) + seq!['}']);
}

/// There are four sorts of messages, each under its own name; no other name is one.
pub proof fn four_sorts_are_known(name: Seq<char>)
    ensures
        kind_named("chat"@) == Ok::<MessageType, Seq<char>>(MessageType::Chat),
        kind_named("system"@) == Ok::<MessageType, Seq<char>>(MessageType::System),
        kind_named("ping"@) == Ok::<MessageType, Seq<char>>(MessageType::Ping),
        kind_named("pong"@) == Ok::<MessageType, Seq<char>>(MessageType::Pong),
        name != "chat"@ && name != "system"@ && name != "ping"@ && name != "pong"@ ==> kind_named(
            name,
        ) == Err::<MessageType, Seq<char>>(
            "unknown variant `"@ + name + "`, expected one of `chat`, `system`, `ping`, `pong`"@,
        ),
{
    lemma_names();
    assert(kind_name(MessageType::Chat) == "chat"@);
    assert(kind_name(MessageType::System) == "system"@);
    assert(kind_name(MessageType::Ping) == "ping"@);
    assert(kind_name(MessageType::Pong) == "pong"@);
}

/// The sort of a message must be given. Its name and its text are what was given, or empty.
pub proof fn only_the_sort_is_needed(kind: MessageType, name: Seq<char>, text: Seq<char>)
    ensures
        completed(FieldsView { kind: Some(kind), name: Some(name), text: Some(text) }) == Ok::<
            WireView,
            Seq<char>,
        >(WireView { kind, name, text }),
        completed(FieldsView { kind: Some(kind), name: None, text: Some(text) }) == Ok::<
            WireView,
            Seq<char>,
        >(WireView { kind, name: Seq::empty(), text }),
        completed(FieldsView { kind: Some(kind), name: Some(name), text: None }) == Ok::<
            WireView,
            Seq<char>,
        >(WireView { kind, name, text: Seq::empty() }),
        completed(FieldsView { kind: Some(kind), name: None, text: None }) == Ok::<
            WireView,
            Seq<char>,
        >(WireView { kind, name: Seq::empty(), text: Seq::empty() }),
        forall|f: FieldsView|
            f.kind is None ==> #[trigger] completed(f) == Err::<WireView, Seq<char>>(
                "missing field `type`"@,
            ),
        no_fields().kind is None && no_fields().name is None && no_fields().text is None,
{
}

/// Each of the three members is taken once, by its key, and leaves the others as they are;
/// a second one of the same key is refused. A member of any other key is passed over, and
/// changes nothing.
pub proof fn members_are_taken_by_key(key: Seq<char>, s: Seq<u8>, f: FieldsView)
    ensures
        f.kind is Some ==> field_at("type"@, s, f) == Err::<(FieldsView, Seq<u8>), Seq<char>>(
            "duplicate field `type`"@,
        ),
        f.name is Some ==> field_at("name"@, s, f) == Err::<(FieldsView, Seq<u8>), Seq<char>>(
            "duplicate field `name`"@,
        ),
        f.text is Some ==> field_at("text"@, s, f) == Err::<(FieldsView, Seq<u8>), Seq<char>>(
            "duplicate field `text`"@,
        ),
        f.kind is None ==> match kind_at(s) {
            Ok((kind, rest)) => field_at("type"@, s, f) == Ok::<(FieldsView, Seq<u8>), Seq<char>>(
                (FieldsView { kind: Some(kind), name: f.name, text: f.text }, rest),
            ),
            Err(e) => field_at("type"@, s, f) == Err::<(FieldsView, Seq<u8>), Seq<char>>(e),
        },
        f.name is None ==> match json::text_at(s) {
            Some((x, rest)) => field_at("name"@, s, f) == Ok::<(FieldsView, Seq<u8>), Seq<char>>(
                (FieldsView { kind: f.kind, name: Some(x), text: f.text }, rest),
            ),
            None => field_at("name"@, s, f) == Err::<(FieldsView, Seq<u8>), Seq<char>>(
                "invalid type, expected a string"@,
            ),
        },
        f.text is None ==> match json::text_at(s) {
            Some((x, rest)) => field_at("text"@, s, f) == Ok::<(FieldsView, Seq<u8>), Seq<char>>(
                (FieldsView { kind: f.kind, name: f.name, text: Some(x) }, rest),
            ),
            None => field_at("text"@, s, f) == Err::<(FieldsView, Seq<u8>), Seq<char>>(
                "invalid type, expected a string"@,
            ),
        },
        key != "type"@ && key != "name"@ && key != "text"@ ==> match json::value_at(s) {
            Some(rest) => field_at(key, s, f) == Ok::<(FieldsView, Seq<u8>), Seq<char>>((f, rest)),
            None => field_at(key, s, f) == Err::<(FieldsView, Seq<u8>), Seq<char>>(
                "expected value"@,
            ),
        },
{
    lemma_names();
}

/// The sort of a message is a text, or the one key of an object whose value is `null`.
pub proof fn sort_is_read(s: Seq<u8>, name: Seq<char>, rest: Seq<u8>)
    ensures
        !json::starts(s, 0x7b) && json::text_at(s) == Some((name, rest)) ==> match kind_named(
            name,
        ) {
            Ok(kind) => kind_at(s) == Ok::<(MessageType, Seq<u8>), Seq<char>>((kind, rest)),
            Err(e) => kind_at(s) == Err::<(MessageType, Seq<u8>), Seq<char>>(e),
        },
        !json::starts(s, 0x7b) && json::text_at(s) is None ==> kind_at(s) == Err::<
            (MessageType, Seq<u8>),
            Seq<char>,
        >("expected value"@),
        json::starts(s, 0x7b) && json::text_at(json::past(s)) is None ==> kind_at(s) == Err::<
            (MessageType, Seq<u8>),
            Seq<char>,
        >("expected value"@),
        json::starts(s, 0x7b) && json::text_at(json::past(s)) == Some((name, rest))
            ==> match kind_named(name) {
            Err(e) => kind_at(s) == Err::<(MessageType, Seq<u8>), Seq<char>>(e),
            Ok(kind) => {
                let value = json::null_at(json::past(rest));
                &&& !json::starts(rest, 0x3a) ==> kind_at(s) == Err::<
                    (MessageType, Seq<u8>),
                    Seq<char>,
                >("expected `:`"@)
                &&& json::starts(rest, 0x3a) && value is None ==> kind_at(s) == Err::<
                    (MessageType, Seq<u8>),
                    Seq<char>,
                >("invalid type, expected unit"@)
                &&& json::starts(rest, 0x3a) && value is Some ==> kind_at(s) == if json::starts(
                    value.unwrap(),
                    0x7d,
                ) {
                    Ok::<(MessageType, Seq<u8>), Seq<char>>((kind, json::past(value.unwrap())))
                } else {
                    Err::<(MessageType, Seq<u8>), Seq<char>>("expected value"@)
                }
            },
        },
{
}

/// A member is a text, a colon and a value.
pub proof fn member_is_key_and_value(s: Seq<u8>, f: FieldsView, key: Seq<char>, rest: Seq<u8>)
    ensures
        json::text_at(s) is None ==> member_at(s, f) == Err::<(FieldsView, Seq<u8>), Seq<char>>(
            "key must be a string"@,
        ),
        json::text_at(s) == Some((key, rest)) && json::starts(rest, 0x3a) ==> member_at(s, f)
            == field_at(key, json::past(rest), f),
        json::text_at(s) == Some((key, rest)) && !json::starts(rest, 0x3a) ==> member_at(s, f)
            == Err::<(FieldsView, Seq<u8>), Seq<char>>("expected `:`"@),
{
}

/// Members stand one behind the other, with commas between them, up to a closing brace:
/// each is added to what was read before it, and the first that is wrong is the reason why
/// there is nothing.
pub proof fn members_are_read_in_turn(s: Seq<u8>, f: FieldsView, g: FieldsView, rest: Seq<u8>)
    ensures
        member_at(s, f) matches Err(e) ==> members_at(s, f) == Err::<
            (FieldsView, Seq<u8>),
            Seq<char>,
        >(e),
        member_at(s, f) == Ok::<(FieldsView, Seq<u8>), Seq<char>>((g, rest)) ==> {
            &&& json::starts(rest, 0x2c) ==> members_at(s, f) == members_at(json::past(rest), g)
            &&& json::starts(rest, 0x7d) ==> members_at(s, f) == Ok::<
                (FieldsView, Seq<u8>),
                Seq<char>,
            >((g, json::past(rest)))
            &&& !json::starts(rest, 0x2c) && !json::starts(rest, 0x7d) ==> members_at(s, f)
                == Err::<(FieldsView, Seq<u8>), Seq<char>>("expected `,` or `}`"@)
        },
{
}

/// An object is the message of its members, from none on.
pub proof fn object_is_its_members(s: Seq<u8>, f: FieldsView, rest: Seq<u8>)
    ensures
        json::starts(s, 0x7d) ==> object_at(s) == Err::<(WireView, Seq<u8>), Seq<char>>(
            "missing field `type`"@,
        ),
        !json::starts(s, 0x7d) && members_at(s, no_fields()) == Ok::<
            (FieldsView, Seq<u8>),
            Seq<char>,
        >((f, rest)) ==> match completed(f) {
            Ok(m) => object_at(s) == Ok::<(WireView, Seq<u8>), Seq<char>>((m, rest)),
            Err(e) => object_at(s) == Err::<(WireView, Seq<u8>), Seq<char>>(e),
        },
        !json::starts(s, 0x7d) ==> (members_at(s, no_fields()) matches Err(e) ==> object_at(s)
            == Err::<(WireView, Seq<u8>), Seq<char>>(e)),
{
}

/// A list is a message in the order in which it is written: its sort, its name and its
/// text, of which the last, or the last two, may be missing, and are then empty.
pub proof fn list_is_a_message_in_order(
    s: Seq<u8>,
    kind: MessageType,
    s1: Seq<u8>,
    name: Seq<char>,
    s2: Seq<u8>,
    text: Seq<char>,
    s3: Seq<u8>,
)
    requires
        !json::starts(s, 0x5d),
        kind_at(s) == Ok::<(MessageType, Seq<u8>), Seq<char>>((kind, s1)),
    ensures
        !json::starts(s1, 0x2c) && json::starts(s1, 0x5d) ==> list_at(s) == Ok::<
            (WireView, Seq<u8>),
            Seq<char>,
        >((WireView { kind, name: Seq::empty(), text: Seq::empty() }, json::past(s1))),
        json::starts(s1, 0x2c) && json::text_at(json::past(s1)) == Some((name, s2)) ==> {
            &&& !json::starts(s2, 0x2c) && json::starts(s2, 0x5d) ==> list_at(s) == Ok::<
                (WireView, Seq<u8>),
                Seq<char>,
            >((WireView { kind, name, text: Seq::empty() }, json::past(s2)))
            &&& json::starts(s2, 0x2c) && json::text_at(json::past(s2)) == Some((text, s3))
                && json::starts(s3, 0x5d) ==> list_at(s) == Ok::<(WireView, Seq<u8>), Seq<char>>(
                (WireView { kind, name, text }, json::past(s3)),
            )
            &&& json::starts(s2, 0x2c) && json::text_at(json::past(s2)) == Some((text, s3))
                && !json::starts(s3, 0x5d) ==> list_at(s) == Err::<(WireView, Seq<u8>), Seq<char>>(
                "expected `,` or `]`"@,
            )
            &&& json::starts(s2, 0x2c) && json::text_at(json::past(s2)) is None ==> list_at(s)
                == Err::<(WireView, Seq<u8>), Seq<char>>("invalid type, expected a string"@)
            &&& !json::starts(s2, 0x2c) && !json::starts(s2, 0x5d) ==> list_at(s) == Err::<
                (WireView, Seq<u8>),
                Seq<char>,
            >("expected `,` or `]`"@)
        },
        json::starts(s1, 0x2c) && json::text_at(json::past(s1)) is None ==> list_at(s) == Err::<
            (WireView, Seq<u8>),
            Seq<char>,
        >("invalid type, expected a string"@),
        !json::starts(s1, 0x2c) && !json::starts(s1, 0x5d) ==> list_at(s) == Err::<
            (WireView, Seq<u8>),
            Seq<char>,
        >("expected `,` or `]`"@),
{
}

/// A list without a sort is no message.
pub proof fn list_needs_a_sort(s: Seq<u8>)
    ensures
        json::starts(s, 0x5d) ==> list_at(s) == Err::<(WireView, Seq<u8>), Seq<char>>(
            "invalid length 0, expected struct WireMessage with 3 elements"@,
        ),
        !json::starts(s, 0x5d) ==> (kind_at(s) matches Err(e) ==> list_at(s) == Err::<
            (WireView, Seq<u8>),
            Seq<char>,
        >(e)),
{
}

/// A payload is a message if it is JSON, an object or a list that is one, and nothing but
/// white space behind it. Otherwise it is refused: what is not JSON with what the JSON
/// reader says of it, and the rest by what is wrong with it.
pub proof fn payload_is_one_message(payload: Seq<u8>)
    ensures
        json::json_fault(payload) matches Some(reason) ==> message_read(payload) == Err::<
            WireView,
            Seq<char>,
        >(reason),
        json::json_fault(payload) is None ==> {
            let behind = json::past(payload);
            let read = if json::starts(payload, 0x7b) {
                object_at(behind)
            } else {
                list_at(behind)
            };
            &&& !json::starts(payload, 0x7b) && !json::starts(payload, 0x5b) ==> message_read(
                payload,
            ) == Err::<WireView, Seq<char>>("invalid type, expected struct WireMessage"@)
            &&& json::starts(payload, 0x7b) || json::starts(payload, 0x5b) ==> match read {
                Err(e) => message_read(payload) == Err::<WireView, Seq<char>>(e),
                Ok((m, rest)) => message_read(payload) == if json::after_space(rest).len() == 0 {
                    Ok::<WireView, Seq<char>>(m)
                } else {
                    Err::<WireView, Seq<char>>("trailing characters"@)
                },
            }
        },
{
}

/// What is seen of a result is the value or the reason, whichever it holds, and of what was
/// read so far everything.
pub proof fn results_are_seen_whole(
    m: WireMessage,
    kind: MessageType,
    f: Fields,
    item: Option<String>,
    rest: &[u8],
    e: String,
)
    ensures
        read_view(Ok(m)) == Ok::<WireView, Seq<char>>(m@),
        read_view(Err(e)) == Err::<WireView, Seq<char>>(e@),
        kind_result(Ok((kind, rest))) == Ok::<(MessageType, Seq<u8>), Seq<char>>((kind, rest@)),
        kind_result(Err(e)) == Err::<(MessageType, Seq<u8>), Seq<char>>(e@),
        fields_result(Ok((f, rest))) == Ok::<(FieldsView, Seq<u8>), Seq<char>>((f@, rest@)),
        fields_result(Err(e)) == Err::<(FieldsView, Seq<u8>), Seq<char>>(e@),
        item_result(Ok((item, rest))) == Ok::<(Option<Seq<char>>, Seq<u8>), Seq<char>>(
            (text::opt_text(item), rest@),
        ),
        item_result(Err(e)) == Err::<(Option<Seq<char>>, Seq<u8>), Seq<char>>(e@),
        message_rest(Ok((m, rest))) == Ok::<(WireView, Seq<u8>), Seq<char>>((m@, rest@)),
        message_rest(Err(e)) == Err::<(WireView, Seq<u8>), Seq<char>>(e@),
        f@ == (FieldsView {
            kind: f.kind,
            name: text::opt_text(f.name),
            text: text::opt_text(f.text),
        }),
{
}

} // verus!
