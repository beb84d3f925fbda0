//! Line formatting for the merger: the human format and the NDJSON format,
//! the stable colour hash, and the ANSI SGR colouring.

use vstd::prelude::*;
use vstd::string::{StrSliceExecFns, StringExecFns};
use vstd::utf8::encode_utf8;

use crate::config::{ColorBy, HumanFormat};
use crate::types::{LogEvent, LogEventView};

verus! {

/// Number of colours in the palette.
pub const PALETTE_SIZE: u64 = 11;

/// Relies on std String::push: appends one character.
#[verifier::external_body]
pub(crate) fn push_char(s: &mut String, c: char)
    ensures
        final(s)@ == old(s)@.push(c),
{
    s.push(c);
}

// ---------------------------------------------------------------------------
// Stable colour hash
// ---------------------------------------------------------------------------

/// A small stable byte hash (FNV-1a style): the colour of a name never
/// changes across runs or machines.
pub open spec fn fnv1a(bytes: Seq<u8>) -> u64
    decreases bytes.len(),
{
    if bytes.len() == 0 {
        1469598103934665603u64
    } else {
        (fnv1a(bytes.drop_last()) ^ (bytes.last() as u64)).wrapping_mul(1099511628211u64)
    }
}

/// The palette slot of a name: its hash, reduced to the palette size.
pub open spec fn color_slot(s: Seq<char>) -> int {
    (fnv1a(encode_utf8(s)) % PALETTE_SIZE) as int
}

/// The palette slot of one name of the event, per the colour-by choice.
pub open spec fn color_index_of(by: ColorBy, ev: LogEventView) -> int {
    match by {
        ColorBy::Pod => color_slot(ev.pod),
        ColorBy::Container => color_slot(ev.container),
    }
}

/// The palette slot of a name, as executable code.
pub fn stable_color_index(s: &str) -> (r: usize)
    ensures
        r == color_slot(s@),
        r < PALETTE_SIZE,
{
    let bytes = s.as_bytes();
    let ghost bv = bytes@;
    let mut h: u64 = 1469598103934665603;
    let mut i: usize = 0;
    proof {
        assert(bv.take(0) =~= Seq::<u8>::empty());
    }
    while i < bytes.len()
        invariant
            i <= bytes.len(),
            bv == bytes@,
            h == fnv1a(bv.take(i as int)),
        decreases bytes.len() - i,
    {
        proof {
            assert(bv.take(i + 1).drop_last() =~= bv.take(i as int));
            assert(bv.take(i + 1).last() == bv[i as int]);
        }
        h = (h ^ (bytes[i] as u64)).wrapping_mul(1099511628211);
        i += 1;
    }
    proof {
        assert(bv.take(bytes.len() as int) =~= bv);
    }
    (h % PALETTE_SIZE) as usize
}

// ---------------------------------------------------------------------------
// ANSI SGR colouring
// ---------------------------------------------------------------------------

/// The SGR prefix (bold, foreground colour) of a palette slot.
pub open spec fn sgr_prefix(idx: int) -> Seq<char> {
    if idx == 0 {
        "\u{1b}[1;32m"@
    } else if idx == 1 {
        "\u{1b}[1;36m"@
    } else if idx == 2 {
        "\u{1b}[1;33m"@
    } else if idx == 3 {
        "\u{1b}[1;35m"@
    } else if idx == 4 {
        "\u{1b}[1;34m"@
    } else if idx == 5 {
        "\u{1b}[1;31m"@
    } else if idx == 6 {
        "\u{1b}[1;92m"@
    } else if idx == 7 {
        "\u{1b}[1;96m"@
    } else if idx == 8 {
        "\u{1b}[1;93m"@
    } else if idx == 9 {
        "\u{1b}[1;95m"@
    } else {
        "\u{1b}[1;94m"@
    }
}

/// The SGR reset suffix.
pub open spec fn sgr_reset() -> Seq<char> {
    "\u{1b}[0m"@
}

/// The SGR prefix of a palette slot, as executable code.
fn sgr_prefix_exec(idx: usize) -> (r: &'static str)
    ensures
        r@ == sgr_prefix(idx as int),
{
    match idx {
        0 => "\u{1b}[1;32m",
        1 => "\u{1b}[1;36m",
        2 => "\u{1b}[1;33m",
        3 => "\u{1b}[1;35m",
        4 => "\u{1b}[1;34m",
        5 => "\u{1b}[1;31m",
        6 => "\u{1b}[1;92m",
        7 => "\u{1b}[1;96m",
        8 => "\u{1b}[1;93m",
        9 => "\u{1b}[1;95m",
        _ => "\u{1b}[1;94m",
    }
}

/// A text wrapped in the SGR sequence of a palette slot.
pub open spec fn painted(s: Seq<char>, idx: int) -> Seq<char> {
    sgr_prefix(idx) + s + sgr_reset()
}

/// Wrap a text in the SGR sequence of a palette slot.
pub fn paint(s: &str, idx: usize) -> (r: String)
    ensures
        r@ == painted(s@, idx as int),
{
    let mut out = String::new();
    out.append(sgr_prefix_exec(idx));
    out.append(s);
    out.append("\u{1b}[0m");
    out
}

// ---------------------------------------------------------------------------
// Padding
// ---------------------------------------------------------------------------

/// `n` spaces (none when `n` is negative).
pub open spec fn spaces(n: int) -> Seq<char> {
    Seq::new(
        if n < 0 {
            0
        } else {
            n as nat
        },
        |i: int| ' ',
    )
}

/// `s`, left-justified in a field of `w` characters; a longer text is not
/// truncated.
pub open spec fn pad_to(s: Seq<char>, w: int) -> Seq<char> {
    s + spaces(w - s.len())
}

/// Left-justify `s` in a field of `w` characters.
fn pad_to_width(s: String, w: usize) -> (r: String)
    ensures
        r@ == pad_to(s@, w as int),
{
    let ghost sv = s@;
    let n = s.as_str().unicode_len();
    let mut out = s;
    let mut k = n;
    proof {
        assert(out@ =~= sv + spaces(0));
    }
    while k < w
        invariant
            n == sv.len(),
            k >= n,
            k <= w || k == n,
            out@ == sv + spaces(k as int - n as int),
        decreases w - k,
    {
        let ghost before = out@;
        push_char(&mut out, ' ');
        proof {
            assert(spaces(k + 1 - n as int) =~= spaces(k as int - n as int).push(' '));
            assert(out@ =~= sv + spaces(k + 1 - n as int));
        }
        k += 1;
    }
    proof {
        if n >= w {
            assert(spaces(w as int - sv.len()) =~= spaces(0));
        }
        assert(out@ =~= pad_to(sv, w as int));
    }
    out
}

// ---------------------------------------------------------------------------
// JSON escaping
// ---------------------------------------------------------------------------

/// The lowercase hex digit of a nibble.
pub open spec fn hex_char(n: int) -> char {
    if n == 1 {
        '1'
    } else if n == 2 {
        '2'
    } else if n == 3 {
        '3'
    } else if n == 4 {
        '4'
    } else if n == 5 {
        '5'
    } else if n == 6 {
        '6'
    } else if n == 7 {
        '7'
    } else if n == 8 {
        '8'
    } else if n == 9 {
        '9'
    } else if n == 10 {
        'a'
    } else if n == 11 {
        'b'
    } else if n == 12 {
        'c'
    } else if n == 13 {
        'd'
    } else if n == 14 {
        'e'
    } else if n == 15 {
        'f'
    } else {
        '0'
    }
}

/// The JSON escape of one character: quote, backslash and the named control
/// characters get a two-character escape, other control characters a
/// `\u00XX` escape, everything else stands for itself.
pub open spec fn esc_char(c: char) -> Seq<char> {
    if c == '"' {
        seq!['\\', '"']
    } else if c == '\\' {
        seq!['\\', '\\']
    } else if c == '\n' {
        seq!['\\', 'n']
    } else if c == '\r' {
        seq!['\\', 'r']
    } else if c == '\t' {
        seq!['\\', 't']
    } else if (c as u32) < 32 {
        seq!['\\', 'u', '0', '0', hex_char((c as u32) as int / 16), hex_char((c as u32) as int % 16)]
    } else {
        seq![c]
    }
}

/// A whole text, JSON-escaped character by character.
pub open spec fn json_escaped(s: Seq<char>) -> Seq<char>
    decreases s.len(),
{
    if s.len() == 0 {
        Seq::empty()
    } else {
        json_escaped(s.drop_last()) + esc_char(s.last())
    }
}

/// The lowercase hex digit of a nibble, as executable code.
fn hex_char_exec(n: u32) -> (r: char)
    ensures
        r == hex_char(n as int),
{
    match n {
        1 => '1',
        2 => '2',
        3 => '3',
        4 => '4',
        5 => '5',
        6 => '6',
        7 => '7',
        8 => '8',
        9 => '9',
        10 => 'a',
        11 => 'b',
        12 => 'c',
        13 => 'd',
        14 => 'e',
        15 => 'f',
        _ => '0',
    }
}

/// Append the JSON escape of one character.
fn push_escaped(out: &mut String, c: char)
    ensures
        final(out)@ == old(out)@ + esc_char(c),
{
    if c == '"' {
        push_char(out, '\\');
        push_char(out, '"');
    } else if c == '\\' {
        push_char(out, '\\');
        push_char(out, '\\');
    } else if c == '\n' {
        push_char(out, '\\');
        push_char(out, 'n');
    } else if c == '\r' {
        push_char(out, '\\');
        push_char(out, 'r');
    } else if c == '\t' {
        push_char(out, '\\');
        push_char(out, 't');
    } else if (c as u32) < 32 {
        let v = c as u32;
        push_char(out, '\\');
        push_char(out, 'u');
        push_char(out, '0');
        push_char(out, '0');
        push_char(out, hex_char_exec(v / 16));
        push_char(out, hex_char_exec(v % 16));
    } else {
        push_char(out, c);
    }
    proof {
        assert(out@ =~= old(out)@ + esc_char(c));
    }
}

/// Append a whole text, JSON-escaped.
fn json_escape_into(out: &mut String, s: &str)
    ensures
        final(out)@ == old(out)@ + json_escaped(s@),
{
    let n = s.unicode_len();
    let mut i: usize = 0;
    proof {
        assert(out@ =~= old(out)@ + json_escaped(s@.take(0)));
    }
    while i < n
        invariant
            n == s@.len(),
            i <= n,
            out@ == old(out)@ + json_escaped(s@.take(i as int)),
        decreases n - i,
    {
        let c = s.get_char(i);
        push_escaped(out, c);
        proof {
            assert(s@.take(i + 1).drop_last() =~= s@.take(i as int));
            assert(s@.take(i + 1).last() == s@[i as int]);
            assert(out@ =~= old(out)@ + json_escaped(s@.take(i + 1)));
        }
        i += 1;
    }
    proof {
        assert(s@.take(n as int) =~= s@);
    }
}

/// A text, JSON-escaped.
pub fn json_escape(s: &str) -> (r: String)
    ensures
        r@ == json_escaped(s@),
{
    let mut out = String::new();
    json_escape_into(&mut out, s);
    proof {
        assert(Seq::<char>::empty() + json_escaped(s@) =~= json_escaped(s@));
    }
    out
}

// ---------------------------------------------------------------------------
// The two line formats
// ---------------------------------------------------------------------------

/// The NDJSON rendering of an event: one object with the five keys `ts`,
/// `namespace`, `pod`, `container`, `message`, every value escaped.
pub open spec fn json_line_of(ev: LogEventView) -> Seq<char> {
    "{\"ts\":\""@ + json_escaped(ev.ts) + "\",\"namespace\":\""@ + json_escaped(ev.namespace)
        + "\",\"pod\":\""@ + json_escaped(ev.pod) + "\",\"container\":\""@ + json_escaped(
        ev.container,
    ) + "\",\"message\":\""@ + json_escaped(ev.message) + "\"}"@
}

/// Render an event as its NDJSON line (without the trailing newline).
pub fn format_json(ev: &LogEvent) -> (r: String)
    ensures
        r@ == json_line_of(ev@),
{
    let mut out = String::from_str("{\"ts\":\"");
    json_escape_into(&mut out, ev.ts.as_str());
    out.append("\",\"namespace\":\"");
    json_escape_into(&mut out, ev.namespace.as_str());
    out.append("\",\"pod\":\"");
    json_escape_into(&mut out, ev.pod.as_str());
    out.append("\",\"container\":\"");
    json_escape_into(&mut out, ev.container.as_str());
    out.append("\",\"message\":\"");
    json_escape_into(&mut out, ev.message.as_str());
    out.append("\"}");
    out
}

/// The `pod/container` prefix of a human line.
pub open spec fn human_prefix(ev: LogEventView) -> Seq<char> {
    ev.pod + "/"@ + ev.container
}

/// A human line without colour: the optional timestamp, the padded
/// `pod/container` prefix, a separator, the message.
pub open spec fn human_line_plain(ev: LogEventView, timestamps: bool, w: int) -> Seq<char> {
    (if timestamps {
        ev.ts + " "@
    } else {
        Seq::<char>::empty()
    }) + pad_to(human_prefix(ev), w) + " | "@ + ev.message
}

/// A human line with the padded prefix wrapped in the SGR sequence of a
/// palette slot.
pub open spec fn human_line_colored(ev: LogEventView, timestamps: bool, w: int, idx: int) -> Seq<
    char,
> {
    (if timestamps {
        ev.ts + " "@
    } else {
        Seq::<char>::empty()
    }) + painted(pad_to(human_prefix(ev), w), idx) + " | "@ + ev.message
}

// ---------------------------------------------------------------------------
// Laws about the two formats
// ---------------------------------------------------------------------------

/// No newline anywhere in the text.
pub open spec fn single_line(s: Seq<char>) -> bool {
    forall|i: int| 0 <= i < s.len() ==> (#[trigger] s[i]) != '\n'
}

proof fn lemma_single_line_concat(a: Seq<char>, b: Seq<char>)
    requires
        single_line(a),
        single_line(b),
    ensures
        single_line(a + b),
{
    assert forall|i: int| 0 <= i < (a + b).len() implies (#[trigger] (a + b)[i]) != '\n' by {
        if i < a.len() {
            assert((a + b)[i] == a[i]);
        } else {
            assert((a + b)[i] == b[i - a.len()]);
        }
    }
}

/// JSON escaping leaves no raw newline in its output, whatever the input.
proof fn lemma_json_escaped_single_line(s: Seq<char>)
    ensures
        single_line(json_escaped(s)),
    decreases s.len(),
{
    if s.len() > 0 {
        lemma_json_escaped_single_line(s.drop_last());
        assert(single_line(esc_char(s.last())));
        lemma_single_line_concat(json_escaped(s.drop_last()), esc_char(s.last()));
    }
}

/// Law: an NDJSON line holds no newline, for every event — each event is
/// one output line, so every line of the stream parses independently.
pub proof fn lemma_json_line_single_line(ev: LogEventView)
    ensures
        single_line(json_line_of(ev)),
{
    reveal_strlit("{\"ts\":\"");
    reveal_strlit("\",\"namespace\":\"");
    reveal_strlit("\",\"pod\":\"");
    reveal_strlit("\",\"container\":\"");
    reveal_strlit("\",\"message\":\"");
    reveal_strlit("\"}");
    lemma_json_escaped_single_line(ev.ts);
    lemma_json_escaped_single_line(ev.namespace);
    lemma_json_escaped_single_line(ev.pod);
    lemma_json_escaped_single_line(ev.container);
    lemma_json_escaped_single_line(ev.message);
    lemma_single_line_concat("{\"ts\":\""@, json_escaped(ev.ts));
    lemma_single_line_concat("{\"ts\":\""@ + json_escaped(ev.ts), "\",\"namespace\":\""@);
    lemma_single_line_concat(
        "{\"ts\":\""@ + json_escaped(ev.ts) + "\",\"namespace\":\""@,
        json_escaped(ev.namespace),
    );
    lemma_single_line_concat(
        "{\"ts\":\""@ + json_escaped(ev.ts) + "\",\"namespace\":\""@ + json_escaped(ev.namespace),
        "\",\"pod\":\""@,
    );
    lemma_single_line_concat(
        "{\"ts\":\""@ + json_escaped(ev.ts) + "\",\"namespace\":\""@ + json_escaped(ev.namespace)
            + "\",\"pod\":\""@,
        json_escaped(ev.pod),
    );
    lemma_single_line_concat(
        "{\"ts\":\""@ + json_escaped(ev.ts) + "\",\"namespace\":\""@ + json_escaped(ev.namespace)
            + "\",\"pod\":\""@ + json_escaped(ev.pod),
        "\",\"container\":\""@,
    );
    lemma_single_line_concat(
        "{\"ts\":\""@ + json_escaped(ev.ts) + "\",\"namespace\":\""@ + json_escaped(ev.namespace)
            + "\",\"pod\":\""@ + json_escaped(ev.pod) + "\",\"container\":\""@,
        json_escaped(ev.container),
    );
    lemma_single_line_concat(
        "{\"ts\":\""@ + json_escaped(ev.ts) + "\",\"namespace\":\""@ + json_escaped(ev.namespace)
            + "\",\"pod\":\""@ + json_escaped(ev.pod) + "\",\"container\":\""@ + json_escaped(
            ev.container,
        ),
        "\",\"message\":\""@,
    );
    lemma_single_line_concat(
        "{\"ts\":\""@ + json_escaped(ev.ts) + "\",\"namespace\":\""@ + json_escaped(ev.namespace)
            + "\",\"pod\":\""@ + json_escaped(ev.pod) + "\",\"container\":\""@ + json_escaped(
            ev.container,
        ) + "\",\"message\":\""@,
        json_escaped(ev.message),
    );
    lemma_single_line_concat(
        "{\"ts\":\""@ + json_escaped(ev.ts) + "\",\"namespace\":\""@ + json_escaped(ev.namespace)
            + "\",\"pod\":\""@ + json_escaped(ev.pod) + "\",\"container\":\""@ + json_escaped(
            ev.container,
        ) + "\",\"message\":\""@ + json_escaped(ev.message),
        "\"}"@,
    );
}

/// No ANSI escape character anywhere in the text.
pub open spec fn no_escape(s: Seq<char>) -> bool {
    forall|i: int| 0 <= i < s.len() ==> (#[trigger] s[i]) != '\u{1b}'
}

proof fn lemma_no_escape_concat(a: Seq<char>, b: Seq<char>)
    requires
        no_escape(a),
        no_escape(b),
    ensures
        no_escape(a + b),
{
    assert forall|i: int| 0 <= i < (a + b).len() implies (#[trigger] (a + b)[i]) != '\u{1b}' by {
        if i < a.len() {
            assert((a + b)[i] == a[i]);
        } else {
            assert((a + b)[i] == b[i - a.len()]);
        }
    }
}

/// Law: the plain human line introduces no ANSI escape — when colour is
/// off (not a terminal, or suppressed), output whose fields hold no escape
/// character is never coloured.
pub proof fn lemma_plain_line_uncolored(ev: LogEventView, timestamps: bool, w: int)
    requires
        no_escape(ev.ts),
        no_escape(ev.pod),
        no_escape(ev.container),
        no_escape(ev.message),
    ensures
        no_escape(human_line_plain(ev, timestamps, w)),
{
    reveal_strlit(" ");
    reveal_strlit("/");
    reveal_strlit(" | ");
    let ts_part = if timestamps {
        ev.ts + " "@
    } else {
        Seq::<char>::empty()
    };
    if timestamps {
        lemma_no_escape_concat(ev.ts, " "@);
    }
    lemma_no_escape_concat(ev.pod, "/"@);
    lemma_no_escape_concat(ev.pod + "/"@, ev.container);
    assert(no_escape(spaces(w - human_prefix(ev).len())));
    lemma_no_escape_concat(human_prefix(ev), spaces(w - human_prefix(ev).len()));
    lemma_no_escape_concat(ts_part, pad_to(human_prefix(ev), w));
    lemma_no_escape_concat(ts_part + pad_to(human_prefix(ev), w), " | "@);
    lemma_no_escape_concat(ts_part + pad_to(human_prefix(ev), w) + " | "@, ev.message);
}

/// Renders events as human-readable lines.
pub struct LineFormatter {
    human: HumanFormat,
    width: usize,
}

impl LineFormatter {
    /// The human-format settings this formatter renders with.
    pub closed spec fn human_spec(&self) -> HumanFormat {
        self.human
    }

    /// The prefix column width.
    pub closed spec fn width_spec(&self) -> int {
        self.width as int
    }

    /// A formatter with the standard prefix column width.
    pub fn new(human: HumanFormat) -> (r: LineFormatter)
        ensures
            r.human_spec() == human,
            r.width_spec() == 36,
    {
        LineFormatter { human, width: 36 }
    }

    /// The palette slot of an event, per the colour-by choice.
    fn style_for(&self, ev: &LogEvent) -> (idx: usize)
        ensures
            idx == color_index_of(self.human_spec().color_by, ev@),
            idx < PALETTE_SIZE,
    {
        match self.human.color_by {
            ColorBy::Pod => stable_color_index(ev.pod.as_str()),
            ColorBy::Container => stable_color_index(ev.container.as_str()),
        }
    }

    /// Render an event as its human line (without the trailing newline).
    /// Without colour the line is exactly the plain rendering: no SGR
    /// sequence is introduced.
    pub fn format_human(&self, ev: &LogEvent) -> (r: String)
        ensures
            self.human_spec().color ==> r@ == human_line_colored(
                ev@,
                self.human_spec().timestamps,
                self.width_spec(),
                color_index_of(self.human_spec().color_by, ev@),
            ),
            !self.human_spec().color ==> r@ == human_line_plain(
                ev@,
                self.human_spec().timestamps,
                self.width_spec(),
            ),
    {
        let mut out = String::new();
        if self.human.timestamps {
            out.append(ev.ts.as_str());
            push_char(&mut out, ' ');
            proof {
                reveal_strlit(" ");
                assert(" "@ =~= seq![' ']);
                assert(out@ =~= ev@.ts + " "@);
            }
        }
        let ghost ts_part = out@;
        let mut prefix = String::new();
        prefix.append(ev.pod.as_str());
        push_char(&mut prefix, '/');
        prefix.append(ev.container.as_str());
        proof {
            reveal_strlit("/");
            assert("/"@ =~= seq!['/']);
            assert(prefix@ =~= human_prefix(ev@));
        }
        let padded = pad_to_width(prefix, self.width);
        if self.human.color {
            let idx = self.style_for(ev);
            let colored = paint(padded.as_str(), idx);
            out.append(colored.as_str());
        } else {
            out.append(padded.as_str());
        }
        out.append(" | ");
        out.append(ev.message.as_str());
        proof {
            if self.human_spec().color {
                assert(out@ =~= human_line_colored(
                    ev@,
                    self.human_spec().timestamps,
                    self.width_spec(),
                    color_index_of(self.human_spec().color_by, ev@),
                ));
            } else {
                assert(out@ =~= human_line_plain(
                    ev@,
                    self.human_spec().timestamps,
                    self.width_spec(),
                ));
            }
        }
        out
    }
}

} // verus!
