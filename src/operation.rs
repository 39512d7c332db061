use vstd::prelude::*;
use crate::text::{chars_of, occurs_at, push_char, string_of_range};

verus! {

/// One completed local write, as announced to the other replicas: the kind
/// of change and the JSON text of the data a peer needs to replay it.
#[derive(Debug, Clone, PartialEq, Eq)]
pub struct BroadcastOperation {
    pub operation: String,
    pub payload: String,
}

/// The mathematical value of an operation.
pub struct OperationModel {
    pub kind: Seq<char>,
    pub payload: Seq<char>,
}

impl View for BroadcastOperation {
    type V = OperationModel;

    open spec fn view(&self) -> OperationModel {
        OperationModel { kind: self.operation@, payload: self.payload@ }
    }
}

/// Characters below the space, which a JSON string cannot hold unescaped.
pub open spec fn is_control(c: char) -> bool {
    (c as u32) < 32
}

/// The lowercase hexadecimal digit of `d` (below 16).
pub open spec fn hex_digit(d: int) -> char {
    if d < 10 {
        (d + 48) as char
    } else {
        (d + 87) as char
    }
}

pub open spec fn is_hex_digit(c: char) -> bool {
    (48 <= (c as u32) <= 57) || (97 <= (c as u32) <= 102)
}

pub open spec fn hex_value(c: char) -> int {
    if (c as u32) <= 57 {
        (c as u32) - 48
    } else {
        (c as u32) - 87
    }
}

/// A character as it stands inside a JSON string literal.
pub open spec fn escape_char(c: char) -> Seq<char> {
    if c == '"' {
        seq!['\\', '"']
    } else if c == '\\' {
        seq!['\\', '\\']
    } else if is_control(c) {
        seq!['\\', 'u', '0', '0', hex_digit((c as int) / 16), hex_digit((c as int) % 16)]
    } else {
        seq![c]
    }
}

/// The body of a JSON string literal that denotes `s`.
pub open spec fn escape(s: Seq<char>) -> Seq<char>
    decreases s.len(),
{
    if s.len() == 0 {
        Seq::empty()
    } else {
        escape(s.drop_last()) + escape_char(s.last())
    }
}

pub open spec fn message_head() -> Seq<char> {
    "{\"operation\":\""@
}

pub open spec fn message_middle() -> Seq<char> {
    "\",\"payload\":"@
}

/// The message that announces `o`: a JSON object whose `operation` member is
/// the kind as a string and whose `payload` member is the payload text.
pub open spec fn encode_message(o: OperationModel) -> Seq<char> {
    message_head() + escape(o.kind) + message_middle() + o.payload + seq!['}']
}

/// Whether an escaped unit that the decoder accepts starts at `m[i]`.
pub open spec fn unit_valid(m: Seq<char>, i: int) -> bool {
    let c = m[i];
    if c == '\\' {
        &&& i + 1 < m.len()
        &&& (m[i + 1] == '"' || m[i + 1] == '\\' || {
            &&& i + 5 < m.len()
            &&& m[i + 1] == 'u'
            &&& m[i + 2] == '0'
            &&& m[i + 3] == '0'
            &&& (m[i + 4] == '0' || m[i + 4] == '1')
            &&& is_hex_digit(m[i + 5])
        })
    } else {
        c != '"' && !is_control(c)
    }
}

/// How many positions the unit at `m[i]` takes.
pub open spec fn unit_width(m: Seq<char>, i: int) -> int {
    if m[i] == '\\' {
        if m[i + 1] == 'u' {
            6
        } else {
            2
        }
    } else {
        1
    }
}

/// The character that the unit at `m[i]` denotes.
pub open spec fn unit_char(m: Seq<char>, i: int) -> char {
    if m[i] == '\\' {
        if m[i + 1] == 'u' {
            (hex_value(m[i + 4]) * 16 + hex_value(m[i + 5])) as char
        } else {
            m[i + 1]
        }
    } else {
        m[i]
    }
}

/// Reads the body of a string literal from `m[i]` on: the characters it
/// denotes and the position of the closing quote.
pub open spec fn unescape_from(m: Seq<char>, i: int) -> Option<(Seq<char>, int)>
    decreases m.len() - i,
{
    if i < 0 || i >= m.len() {
        None
    } else if m[i] == '"' {
        Some((Seq::empty(), i))
    } else if !unit_valid(m, i) {
        None
    } else {
        match unescape_from(m, i + unit_width(m, i)) {
            Some((s, j)) => Some((seq![unit_char(m, i)] + s, j)),
            None => None,
        }
    }
}

/// The operation that a message announces, if it is well formed.
pub open spec fn decode_message(m: Seq<char>) -> Option<OperationModel> {
    let h = message_head().len() as int;
    let d = message_middle().len() as int;
    if h <= m.len() && m.subrange(0, h) == message_head() {
        match unescape_from(m, h) {
            Some((k, j)) => {
                if j + d < m.len() && m.subrange(j, j + d) == message_middle() && m.last() == '}' {
                    Some(OperationModel { kind: k, payload: m.subrange(j + d, m.len() - 1) })
                } else {
                    None
                }
            },
            None => None,
        }
    } else {
        None
    }
}

pub proof fn lemma_escape_concat(a: Seq<char>, b: Seq<char>)
    ensures
        escape(a + b) == escape(a) + escape(b),
    decreases b.len(),
{
    if b.len() == 0 {
        assert(a + b =~= a);
    } else {
        lemma_escape_concat(a, b.drop_last());
        assert((a + b).drop_last() =~= a + b.drop_last());
        assert((a + b).last() == b.last());
    }
}

proof fn lemma_hex_round_trip(d: int)
    requires
        0 <= d < 16,
    ensures
        is_hex_digit(hex_digit(d)),
        hex_value(hex_digit(d)) == d,
{
    if d < 10 {
        assert(((d + 48) as char) as u32 == d + 48);
    } else {
        assert(((d + 87) as char) as u32 == d + 87);
    }
}

/// The decoder reads back each escaped character, with the width it wrote.
proof fn lemma_unit_of_escape_char(m: Seq<char>, i: int, c: char)
    requires
        0 <= i,
        i + escape_char(c).len() <= m.len(),
        m.subrange(i, i + escape_char(c).len()) == escape_char(c),
    ensures
        m[i] != '"',
        unit_valid(m, i),
        unit_width(m, i) == escape_char(c).len(),
        unit_char(m, i) == c,
{
    let e = escape_char(c);
    assert forall|k: int| 0 <= k < e.len() implies m[i + k] == e[k] by {
        assert(m.subrange(i, i + e.len())[k] == m[i + k]);
    }
    assert(m[i] == e[0]) by {
        assert(m.subrange(i, i + e.len())[0] == m[i]);
    }
    if c == '"' || c == '\\' {
        assert(m[i] == '\\');
    } else if is_control(c) {
        let v = c as int;
        lemma_hex_round_trip(v / 16);
        lemma_hex_round_trip(v % 16);
        assert(m[i] == '\\');
        assert(m[i + 1] == 'u');
        assert(m[i + 4] == hex_digit(v / 16));
        assert(m[i + 5] == hex_digit(v % 16));
        assert(v / 16 == 0 || v / 16 == 1);
        assert(hex_digit(0) == '0') by {
            assert((48int as char) == '0');
        }
        assert(hex_digit(1) == '1') by {
            assert((49int as char) == '1');
        }
        assert((v / 16) * 16 + v % 16 == v);
        assert(((v as int) as char) == c);
    } else {
        assert(m[i] == c);
    }
}

/// The decoder reads an escaped string back up to the quote that follows it.
proof fn lemma_unescape_escaped(m: Seq<char>, i: int, k: Seq<char>)
    requires
        0 <= i,
        i + escape(k).len() < m.len(),
        m.subrange(i, i + escape(k).len()) == escape(k),
        m[i + escape(k).len()] == '"',
    ensures
        unescape_from(m, i) == Some((k, i + escape(k).len())),
    decreases k.len(),
{
    if k.len() == 0 {
        assert(k =~= Seq::<char>::empty());
    } else {
        let c = k[0];
        let t = k.drop_first();
        assert(k =~= seq![c] + t);
        lemma_escape_concat(seq![c], t);
        assert(seq![c].drop_last() =~= Seq::<char>::empty());
        assert(escape(Seq::<char>::empty()) == Seq::<char>::empty());
        assert(seq![c].last() == c);
        assert(escape(seq![c]) =~= escape_char(c));
        let w = escape_char(c).len() as int;
        let ek = escape(k);
        assert(ek == escape_char(c) + escape(t));
        assert(m.subrange(i, i + w) =~= m.subrange(i, i + ek.len()).subrange(0, w));
        assert(ek.subrange(0, w) =~= escape_char(c));
        lemma_unit_of_escape_char(m, i, c);
        assert(m.subrange(i + w, i + w + escape(t).len()) =~= m.subrange(i, i + ek.len()).subrange(w, ek.len() as int));
        assert(ek.subrange(w, ek.len() as int) =~= escape(t));
        lemma_unescape_escaped(m, i + w, t);
    }
}

/// Decoding the message that announces an operation gives that operation back.
pub proof fn lemma_round_trip(o: OperationModel)
    ensures
        decode_message(encode_message(o)) == Some(o),
{
    let m = encode_message(o);
    let h = message_head().len() as int;
    let d = message_middle().len() as int;
    let e = escape(o.kind).len() as int;
    reveal_strlit("{\"operation\":\"");
    reveal_strlit("\",\"payload\":");
    assert(m.subrange(0, h) =~= message_head());
    assert(m.subrange(h, h + e) =~= escape(o.kind));
    assert(m[h + e] == message_middle()[0]);
    lemma_unescape_escaped(m, h, o.kind);
    let j = h + e;
    assert(m.subrange(j, j + d) =~= message_middle());
    assert(m.subrange(j + d, m.len() - 1) =~= o.payload);
}

proof fn lemma_hex_digit_of_value(c: char)
    requires
        is_hex_digit(c),
    ensures
        hex_digit(hex_value(c)) == c,
        0 <= hex_value(c) < 16,
{
    let v = c as u32;
    if v <= 57 {
        assert(((v as int) as char) == c);
    } else {
        assert(((v as int) as char) == c);
    }
}

/// Each unit that the decoder accepts is the escaped form of the character
/// it reads.
proof fn lemma_escape_char_of_unit(m: Seq<char>, i: int)
    requires
        0 <= i < m.len(),
        unit_valid(m, i),
    ensures
        i + unit_width(m, i) <= m.len(),
        m.subrange(i, i + unit_width(m, i)) == escape_char(unit_char(m, i)),
{
    let w = unit_width(m, i);
    let c = unit_char(m, i);
    if m[i] == '\\' && m[i + 1] == 'u' {
        let hi = hex_value(m[i + 4]);
        let lo = hex_value(m[i + 5]);
        lemma_hex_digit_of_value(m[i + 5]);
        assert(hex_value('0') == 0 && hex_value('1') == 1) by {
            assert(('0' as u32) == 48 && ('1' as u32) == 49);
        }
        assert(hex_digit(0) == '0') by {
            assert((48int as char) == '0');
        }
        assert(hex_digit(1) == '1') by {
            assert((49int as char) == '1');
        }
        let v = hi * 16 + lo;
        assert(0 <= v < 32);
        assert((v as char) as int == v);
        assert((c as int) / 16 == hi && (c as int) % 16 == lo);
        assert(m.subrange(i, i + w) =~= escape_char(c));
    } else {
        assert(m.subrange(i, i + w) =~= escape_char(c));
    }
}

/// Whatever the decoder reads from `m[i]` on is escaped there, and a quote
/// follows it.
proof fn lemma_unescaped_is_escape(m: Seq<char>, i: int)
    requires
        unescape_from(m, i) is Some,
    ensures
        ({
            let (k, j) = unescape_from(m, i)->0;
            &&& 0 <= i <= j < m.len()
            &&& m.subrange(i, j) == escape(k)
            &&& m[j] == '"'
        }),
    decreases m.len() - i,
{
    if m[i] == '"' {
        assert(m.subrange(i, i) =~= escape(Seq::<char>::empty()));
    } else {
        let w = unit_width(m, i);
        let c = unit_char(m, i);
        lemma_escape_char_of_unit(m, i);
        lemma_unescaped_is_escape(m, i + w);
        let (t, j) = unescape_from(m, i + w)->0;
        lemma_escape_concat(seq![c], t);
        assert(seq![c].drop_last() =~= Seq::<char>::empty());
        assert(escape(Seq::<char>::empty()) == Seq::<char>::empty());
        assert(escape(seq![c]) =~= escape_char(c));
        assert(m.subrange(i, j) =~= m.subrange(i, i + w) + m.subrange(i + w, j));
    }
}

/// A message that decodes to an operation is exactly the message that
/// announces it: the decoder accepts nothing but what the encoder writes.
pub proof fn lemma_decoded_is_canonical(m: Seq<char>)
    requires
        decode_message(m) is Some,
    ensures
        encode_message(decode_message(m)->0) == m,
{
    let h = message_head().len() as int;
    let d = message_middle().len() as int;
    lemma_unescaped_is_escape(m, h);
    let (_, j) = unescape_from(m, h)->0;
    assert(m =~= m.subrange(0, h) + m.subrange(h, j) + m.subrange(j, j + d) + m.subrange(j + d, m.len() - 1) + seq![m.last()]);
}

fn hex_char(d: u32) -> (r: char)
    requires
        d < 16,
    ensures
        r == hex_digit(d as int),
{
    if d < 10 {
        ((d + 48) as u8) as char
    } else {
        ((d + 87) as u8) as char
    }
}

fn hex_value_of(c: char) -> (r: Option<u32>)
    ensures
        r == (if is_hex_digit(c) { Some(hex_value(c) as u32) } else { None::<u32> }),
{
    let v: u32 = c as u32;
    if 48 <= v && v <= 57 {
        Some(v - 48)
    } else if 97 <= v && v <= 102 {
        Some(v - 87)
    } else {
        None
    }
}

fn push_escaped(out: &mut String, c: char)
    ensures
        final(out)@ == old(out)@ + escape_char(c),
{
    let v: u32 = c as u32;
    if c == '"' {
        push_char(out, '\\');
        push_char(out, '"');
    } else if c == '\\' {
        push_char(out, '\\');
        push_char(out, '\\');
    } else if v < 32 {
        push_char(out, '\\');
        push_char(out, 'u');
        push_char(out, '0');
        push_char(out, '0');
        push_char(out, hex_char(v / 16));
        push_char(out, hex_char(v % 16));
    } else {
        push_char(out, c);
    }
    assert(final(out)@ =~= old(out)@ + escape_char(c));
}

impl BroadcastOperation {
    /// An operation of the given kind, carrying the given payload text.
    pub fn new(operation: String, payload: String) -> (r: BroadcastOperation)
        ensures
            r@ == (OperationModel { kind: operation@, payload: payload@ }),
    {
        BroadcastOperation { operation, payload }
    }

    /// The message that announces this operation to the other replicas.
    pub fn to_message(&self) -> (r: String)
        ensures
            r@ == encode_message(self@),
    {
        let mut out = String::from_str("{\"operation\":\"");
        let chars = chars_of(self.operation.as_str());
        let mut i: usize = 0;
        while i < chars.len()
            invariant
                chars@ == self.operation@,
                i <= chars@.len(),
                out@ == message_head() + escape(chars@.subrange(0, i as int)),
            decreases chars.len() - i,
        {
            push_escaped(&mut out, chars[i]);
            assert(chars@.subrange(0, i + 1).drop_last() =~= chars@.subrange(0, i as int));
            i += 1;
        }
        assert(chars@.subrange(0, chars@.len() as int) =~= chars@);
        out.append("\",\"payload\":");
        out.append(self.payload.as_str());
        out.append("}");
        proof {
            reveal_strlit("}");
        }
        out
    }

    /// The operation that `message` announces, or `None` where `message` is
    /// not a well-formed announcement.
    pub fn from_message(message: &str) -> (r: Option<BroadcastOperation>)
        ensures
            match r {
                Some(o) => decode_message(message@) == Some(o@),
                None => decode_message(message@) is None,
            },
    {
        let m = chars_of(message);
        let head = chars_of("{\"operation\":\"");
        let middle = chars_of("\",\"payload\":");
        if !occurs_at(&m, 0, &head) {
            return None;
        }
        let ghost start = head@.len() as int;
        let mut kind = String::new();
        let mut i: usize = head.len();
        loop
            invariant
                m@ == message@,
                head@ == message_head(),
                middle@ == message_middle(),
                start == head@.len(),
                start <= i <= m@.len(),
                m@.subrange(0, start) == message_head(),
                unescape_from(m@, start) == (match unescape_from(m@, i as int) {
                    Some((s, j)) => Some((kind@ + s, j)),
                    None => None,
                }),
            ensures
                start <= i < m@.len(),
                m@[i as int] == '"',
                m@.subrange(0, start) == message_head(),
                unescape_from(m@, start) == (match unescape_from(m@, i as int) {
                    Some((s, j)) => Some((kind@ + s, j)),
                    None => None,
                }),
            decreases m@.len() - i,
        {
            if i >= m.len() {
                return None;
            }
            let c = m[i];
            let code_point: u32 = c as u32;
            if c == '"' {
                break;
            }
            let ghost before = kind@;
            let ghost at = i as int;
            let ch: char;
            if c == '\\' {
                if m.len() - i <= 1 {
                    return None;
                }
                let e = m[i + 1];
                if e == '"' || e == '\\' {
                    ch = e;
                    i += 2;
                } else if e == 'u' {
                    if m.len() - i <= 5 || m[i + 2] != '0' || m[i + 3] != '0' {
                        return None;
                    }
                    let high = m[i + 4];
                    if high != '0' && high != '1' {
                        return None;
                    }
                    let low = match hex_value_of(m[i + 5]) {
                        Some(v) => v,
                        None => return None,
                    };
                    let code: u8 = (if high == '0' { low } else { 16 + low }) as u8;
                    assert(hex_value(high) * 16 + hex_value(m@[at + 5]) == code as int);
                    ch = code as char;
                    i += 6;
                } else {
                    return None;
                }
            } else if code_point < 32 {
                return None;
            } else {
                ch = c;
                i += 1;
            }
            push_char(&mut kind, ch);
            proof {
                assert(unit_valid(m@, at));
                assert(unit_width(m@, at) == i - at);
                assert(unit_char(m@, at) == ch);
                match unescape_from(m@, i as int) {
                    Some((rest, j)) => {
                        assert(kind@ + rest =~= before + (seq![ch] + rest));
                    },
                    None => {},
                }
            }
        }
        let ghost k = kind@;
        assert(unescape_from(m@, i as int) == Some((Seq::<char>::empty(), i as int)));
        assert(k + Seq::<char>::empty() =~= k);
        if !occurs_at(&m, i, &middle) {
            return None;
        }
        if m.len() - i <= middle.len() {
            return None;
        }
        let after = i + middle.len();
        if m[m.len() - 1] != '}' {
            return None;
        }
        let payload = string_of_range(&m, after, m.len() - 1);
        Some(BroadcastOperation { operation: kind, payload })
    }
}

} // verus!
