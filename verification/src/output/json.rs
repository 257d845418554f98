//! The JSON renderer: one document for each invocation.

use vstd::prelude::*;
use vstd::string::*;

use super::{IoKind, RenderError};
use crate::text;

verus! {

/// A character as it stands in a JSON string.
pub open spec fn json_char(c: char) -> Seq<char> {
    if c == '"' || c == '\\' {
        seq!['\\', c]
    } else if c == '\u{8}' {
        seq!['\\', 'b']
    } else if c == '\u{c}' {
        seq!['\\', 'f']
    } else if c == '\n' {
        seq!['\\', 'n']
    } else if c == '\r' {
        seq!['\\', 'r']
    } else if c == '\t' {
        seq!['\\', 't']
    } else if ' ' > c && c >= '\0' {
        seq![
            '\\',
            'u',
            '0',
            '0',
            text::hex_char(c as nat / 16),
            text::hex_char(c as nat % 16),
        ]
    } else {
        seq![c]
    }
}

/// What stands between the quotes of a JSON string.
pub open spec fn json_body(s: Seq<char>) -> Seq<char>
    decreases s.len(),
{
    if s.len() == 0 {
        Seq::empty()
    } else {
        json_body(s.drop_last()) + json_char(s.last())
    }
}

/// The JSON form of a string.
pub open spec fn json_text(s: Seq<char>) -> Seq<char> {
    seq!['"'] + json_body(s) + seq!['"']
}

/// Whether a text stays on one line.
pub open spec fn one_line(s: Seq<char>) -> bool {
    forall|i: int| 0 <= i < s.len() ==> s[i] != '\n'
}

/// How many line breaks a text holds.
pub open spec fn breaks(s: Seq<char>) -> nat
    decreases s.len(),
{
    if s.len() == 0 {
        0
    } else {
        breaks(s.drop_last()) + (if s.last() == '\n' {
            1nat
        } else {
            0nat
        })
    }
}

/// The line breaks of two texts are those of the first and those of the second.
pub proof fn breaks_add_up(a: Seq<char>, b: Seq<char>)
    ensures
        breaks(a + b) == breaks(a) + breaks(b),
    decreases b.len(),
{
    if b.len() == 0 {
        assert(a + b =~= a);
    } else {
        assert((a + b).drop_last() =~= a + b.drop_last());
        breaks_add_up(a, b.drop_last());
    }
}

/// A text that stays on one line has no line break.
pub proof fn one_line_has_no_break(s: Seq<char>)
    requires
        one_line(s),
    ensures
        breaks(s) == 0,
    decreases s.len(),
{
    if s.len() > 0 {
        one_line_has_no_break(s.drop_last());
    }
}

/// A JSON string stays on one line, whatever it says.
pub proof fn json_text_is_one_line(s: Seq<char>)
    ensures
        one_line(json_text(s)),
{
    json_body_is_one_line(s);
}

proof fn json_body_is_one_line(s: Seq<char>)
    ensures
        one_line(json_body(s)),
    decreases s.len(),
{
    if s.len() > 0 {
        json_body_is_one_line(s.drop_last());
        let c = s.last();
        if ' ' > c && c >= '\0' {
            assert(text::hex_char(c as nat / 16) != '\n');
            assert(text::hex_char(c as nat % 16) != '\n');
        }
        assert(one_line(json_char(c)));
    }
}

/// `serde_json::to_string` of a string: the string between quotes, with quotes, backslashes
/// and the characters below the blank escaped. Writing a string into memory never fails, so
/// the call returns a text for every string.
#[verifier::external_body]
fn to_json(s: &str) -> (r: String)
    ensures
        r@ == json_text(s@),
{
    serde_json::to_string(s).unwrap()
}

/// The JSON form of a string.
pub fn json_string(s: &str) -> (r: String)
    ensures
        r@ == json_text(s@),
        one_line(r@),
{
    proof {
        json_text_is_one_line(s@);
    }
    to_json(s)
}

/// What the second document of an invocation is refused with.
pub const SECOND_DOCUMENT: &'static str =
    "JsonRenderer already emitted a document; only one document is permitted per invocation";

/// Whether an error is what a second document is refused with.
pub open spec fn is_refusal(e: RenderError) -> bool {
    e matches RenderError::Io(kind, d) && kind == IoKind::InvalidInput && d@ == SECOND_DOCUMENT@
}

/// Renders one JSON document.
#[derive(Debug)]
pub struct JsonRenderer {
    /// What was written so far.
    pub out: String,
    /// Whether documents are indented.
    pub pretty: bool,
    /// Whether the document was written.
    pub spoken: bool,
}

/// The document that reports an error.
pub open spec fn error_document(message: Seq<char>, pretty: bool) -> Seq<char> {
    if pretty {
        "{\n  \"command\": \"error\",\n  \"message\": "@ + json_text(message) + "\n}"@
    } else {
        "{\"command\":\"error\",\"message\":"@ + json_text(message) + "}"@
    }
}

impl JsonRenderer {
    /// A renderer that has written nothing yet.
    pub fn new(pretty: bool) -> (r: JsonRenderer)
        ensures
            r.out@ == Seq::<char>::empty(),
            r.pretty == pretty,
            !r.spoken,
    {
        JsonRenderer { out: String::new(), pretty, spoken: false }
    }

    /// Writes the document of this invocation, and a line break. A second document is
    /// refused and changes nothing.
    pub fn write_doc(&mut self, document: &str) -> (r: Result<(), RenderError>)
        ensures
            final(self).pretty == old(self).pretty,
            final(self).spoken,
            match r {
                Ok(_) => !old(self).spoken && final(self).out@ == old(self).out@ + document@
                    + "\n"@,
                Err(e) => old(self).spoken && final(self).out@ == old(self).out@ && is_refusal(e),
            },
    {
        if self.spoken {
            return Err(RenderError::Io(IoKind::InvalidInput, SECOND_DOCUMENT.to_owned()));
        }
        self.out.append(document);
        self.out.append("\n");
        self.spoken = true;
        Ok(())
    }

    /// Writes the document that reports an error.
    pub fn render_error(&mut self, message: &str) -> (r: Result<(), RenderError>)
        ensures
            final(self).pretty == old(self).pretty,
            final(self).spoken,
            match r {
                Ok(_) => !old(self).spoken && final(self).out@ == old(self).out@
                    + error_document(message@, old(self).pretty) + "\n"@,
                Err(e) => old(self).spoken && final(self).out@ == old(self).out@ && is_refusal(e),
            },
    {
        let quoted = json_string(message);
        let mut doc = if self.pretty {
            "{\n  \"command\": \"error\",\n  \"message\": ".to_owned()
        } else {
            "{\"command\":\"error\",\"message\":".to_owned()
        };
        doc.append(quoted.as_str());
        if self.pretty {
            doc.append("\n}");
        } else {
            doc.append("}");
        }
        self.write_doc(doc.as_str())
    }
}

/// The character that an escape of one letter stands for.
pub open spec fn named_escape(c: char) -> Option<char> {
    if c == '"' {
        Some('"')
    } else if c == '\\' {
        Some('\\')
    } else if c == 'b' {
        Some('\u{8}')
    } else if c == 'f' {
        Some('\u{c}')
    } else if c == 'n' {
        Some('\u{a}')
    } else if c == 'r' {
        Some('\u{d}')
    } else if c == 't' {
        Some('\u{9}')
    } else {
        None
    }
}

/// What a JSON string holds, from behind its opening quote on, and what stands behind its
/// closing quote.
pub open spec fn read_text(t: Seq<char>) -> Option<(Seq<char>, Seq<char>)>
    decreases t.len(),
{
    if t.len() == 0 || (' ' > t[0] && t[0] >= '\0') {
        None
    } else if t[0] == '"' {
        Some((Seq::empty(), t.skip(1)))
    } else if t[0] != '\\' {
        match read_text(t.skip(1)) {
            None => None,
            Some((s, rest)) => Some((seq![t[0]] + s, rest)),
        }
    } else if t.len() >= 2 && named_escape(t[1]) is Some {
        match read_text(t.skip(2)) {
            None => None,
            Some((s, rest)) => Some((seq![named_escape(t[1])->0] + s, rest)),
        }
    } else if t.len() >= 6 && t[1] == 'u' && t[2] == '0' && t[3] == '0' {
        match read_text(t.skip(6)) {
            None => None,
            Some((s, rest)) => Some(
                (seq![(16 * text::hex_value(t[4]) + text::hex_value(t[5])) as char] + s, rest),
            ),
        }
    } else {
        None
    }
}

proof fn body_from_the_front(s: Seq<char>)
    requires
        s.len() > 0,
    ensures
        json_body(s) == json_char(s[0]) + json_body(s.drop_first()),
    decreases s.len(),
{
    if s.len() == 1 {
        reveal_with_fuel(json_body, 2);
        assert(s.drop_last() =~= Seq::empty());
        assert(s.drop_first() =~= Seq::empty());
        assert(json_body(s) =~= json_char(s[0]) + json_body(s.drop_first()));
    } else {
        body_from_the_front(s.drop_last());
        assert(s.drop_last().drop_first() =~= s.drop_first().drop_last());
        assert(json_body(s) =~= json_char(s[0]) + json_body(s.drop_first()));
    }
}

/// Whatever a text says, its JSON string reads back as the text and ends with its closing
/// quote.
pub proof fn json_text_reads_back(s: Seq<char>, rest: Seq<char>)
    ensures
        json_text(s)[0] == '"',
        read_text((json_text(s) + rest).skip(1)) == Some((s, rest)),
{
    body_reads_back(s, rest);
    assert((json_text(s) + rest).skip(1) =~= json_body(s) + seq!['"'] + rest);
}

proof fn body_reads_back(s: Seq<char>, rest: Seq<char>)
    ensures
        read_text(json_body(s) + seq!['"'] + rest) == Some((s, rest)),
    decreases s.len(),
{
    let t = json_body(s) + seq!['"'] + rest;
    if s.len() == 0 {
        assert(t[0] == '"');
        assert(t.skip(1) =~= rest);
        assert(s =~= Seq::empty());
    } else {
        let c = s[0];
        let e = json_char(c);
        let later = s.drop_first();
        let u = json_body(later) + seq!['"'] + rest;
        body_from_the_front(s);
        body_reads_back(later, rest);
        assert(t =~= e + u);
        assert(t.skip(e.len() as int) =~= u);
        assert(s =~= seq![c] + later);
        assert(forall|i: int| 0 <= i < e.len() ==> t[i] == e[i]);
        assert(t[0] == e[0]);
        if e.len() >= 2 {
            assert(t[1] == e[1]);
        }
        if e.len() == 6 {
            assert(t[2] == e[2] && t[3] == e[3] && t[4] == e[4] && t[5] == e[5]);
            let h = c as nat / 16;
            let l = c as nat % 16;
            assert(text::hex_value(text::hex_char(h)) == h);
            assert(text::hex_value(text::hex_char(l)) == l);
            assert(16 * text::hex_value(t[4]) + text::hex_value(t[5]) == c as int);
            assert((16 * text::hex_value(t[4]) + text::hex_value(t[5])) as char == c);
            assert(named_escape(t[1]) is None);
            assert(t.skip(6) =~= u);
            assert(read_text(t) == Some((seq![c] + later, rest)));
        } else if e.len() == 2 {
            assert(named_escape(t[1]) == Some(c));
            assert(t.skip(2) =~= u);
            assert(read_text(t) == Some((seq![c] + later, rest)));
        } else {
            assert(t.skip(1) =~= u);
            assert(read_text(t) == Some((seq![c] + later, rest)));
        }
    }
}

proof fn text_reads_back_behind(front: Seq<char>, s: Seq<char>, end: Seq<char>)
    ensures
        ({
            let t = front + json_text(s) + end;
            &&& front.is_prefix_of(t)
            &&& t[front.len() as int] == '"'
            &&& read_text(t.skip(front.len() + 1int)) == Some((s, end))
        }),
{
    let t = front + json_text(s) + end;
    body_reads_back(s, end);
    assert(t.skip(front.len() + 1int) =~= json_body(s) + seq!['"'] + end);
    assert(t[front.len() as int] == json_text(s)[0]);
}

/// The document of an error is an object that names itself an error and holds the message.
pub proof fn error_document_holds_the_message(message: Seq<char>)
    ensures
        ({
            let front = "{\"command\":\"error\",\"message\":"@;
            let t = error_document(message, false);
            &&& front.is_prefix_of(t)
            &&& t[front.len() as int] == '"'
            &&& read_text(t.skip(front.len() + 1int)) == Some((message, "}"@))
        }),
        ({
            let front = "{\n  \"command\": \"error\",\n  \"message\": "@;
            let t = error_document(message, true);
            &&& front.is_prefix_of(t)
            &&& t[front.len() as int] == '"'
            &&& read_text(t.skip(front.len() + 1int)) == Some((message, "\n}"@))
        }),
{
    text_reads_back_behind("{\"command\":\"error\",\"message\":"@, message, "}"@);
    text_reads_back_behind(
        "{\n  \"command\": \"error\",\n  \"message\": "@,
        message,
        "\n}"@,
    );
}

} // verus!
