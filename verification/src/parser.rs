//! Parsers for the output of the `nordlayer` command-line client.
use vstd::prelude::*;
use crate::text::{
    chars_of, contains, index_of, line_spans, lines, lowercase, span_contains_folded_str,
    span_find_char, span_string, span_texts, spans_within, starts_with, starts_with_at,
    string_views, trim, trim_span,
};

verus! {

// ── Shared types ────────────────────────────────────────────────────────────

/// Connection state of the NordLayer client.
#[derive(Debug, Clone, Copy, PartialEq, Eq, Structural)]
pub enum ConnectionStatus {
    Connected,
    Disconnected,
    Connecting,
    Reconnecting,
    NotLoggedIn,
    Unknown,
}

/// The text that `ConnectionStatus::label` returns.
pub open spec fn status_label(s: ConnectionStatus) -> Seq<char> {
    match s {
        ConnectionStatus::Connected => "connected"@,
        ConnectionStatus::Disconnected => "disconnected"@,
        ConnectionStatus::Connecting => "connecting"@,
        ConnectionStatus::Reconnecting => "reconnecting"@,
        ConnectionStatus::NotLoggedIn => "not logged in"@,
        ConnectionStatus::Unknown => "unknown"@,
    }
}

impl ConnectionStatus {
    /// A short lower-case name of the state, for display.
    pub fn label(self) -> (r: &'static str)
        ensures
            r@ == status_label(self),
    {
        match self {
            ConnectionStatus::Connected => "connected",
            ConnectionStatus::Disconnected => "disconnected",
            ConnectionStatus::Connecting => "connecting",
            ConnectionStatus::Reconnecting => "reconnecting",
            ConnectionStatus::NotLoggedIn => "not logged in",
            ConnectionStatus::Unknown => "unknown",
        }
    }
}

/// A gateway that `nordlayer gateways` lists.
#[derive(Debug, Clone, PartialEq, Eq)]
pub struct Gateway {
    pub id: String,
    pub name: String,
    pub is_private: bool,
}

/// A gateway as plain values: id, name, and whether it is private.
pub open spec fn gateway_view(g: Gateway) -> (Seq<char>, Seq<char>, bool) {
    (g.id@, g.name@, g.is_private)
}

/// The plain values of a list of gateways.
pub open spec fn gateway_views(gs: Seq<Gateway>) -> Seq<(Seq<char>, Seq<char>, bool)> {
    gs.map_values(|g: Gateway| gateway_view(g))
}

/// The view of an optional string.
pub open spec fn opt_view(o: Option<String>) -> Option<Seq<char>> {
    match o {
        Some(s) => Some(s@),
        None => None,
    }
}

// ── Template-based parsing (primary) ────────────────────────────────────────

/// Go template for `nordlayer status -f STATUS_TEMPLATE`.
/// Emits a single tab-separated line: `<status>\t<server>`,
/// e.g. `Connected\tus-east-1` or `Disconnected\t`.
pub const STATUS_TEMPLATE: &'static str = "{{.Status}}\t{{.Server}}";

/// Go template for `nordlayer gateways -f GATEWAYS_TEMPLATE`.
/// Emits one `PRIVATE|<id>|<name>` or `SHARED|<id>|<name>` record per gateway.
pub const GATEWAYS_TEMPLATE: &'static str =
    "{{range .Private}}PRIVATE|{{.Id}}|{{.Name}}\n{{end}}{{range .Shared}}SHARED|{{.Id}}|{{.Name}}\n{{end}}";

/// The gateway part of template status output: the trimmed text after the
/// tab, when it is not empty.
pub open spec fn tab_gateway(t: Seq<char>, k: int) -> Option<Seq<char>> {
    let g = trim(t.skip(k + 1));
    if g.len() == 0 {
        None
    } else {
        Some(g)
    }
}

/// What `parse_status_output` returns: the output is trimmed and split at
/// its first tab; the part before it is classified, the part after it,
/// trimmed, is the gateway unless empty.
pub open spec fn status_output(s: Seq<char>) -> (ConnectionStatus, Option<Seq<char>>) {
    let t = trim(s);
    match index_of(t, '\t') {
        Some(k) => (classify(trim(t.take(k))), tab_gateway(t, k)),
        None => (classify(trim(t)), None),
    }
}

/// Parse `nordlayer status -f STATUS_TEMPLATE` output.
/// Returns the connection status and the gateway name, if any.
pub fn parse_status_output(output: &str) -> (r: (ConnectionStatus, Option<String>))
    ensures
        (r.0, opt_view(r.1)) == status_output(output@),
{
    let v = chars_of(output);
    let n = v.len();
    let (a, b) = trim_span(&v, 0, n);
    let ghost t = v@.subrange(a as int, b as int);
    assert(v@.subrange(0, n as int) =~= v@);
    match span_find_char(&v, a, b, '\t') {
        Some(k) => {
            let (a1, b1) = trim_span(&v, a, k);
            let (c, d) = trim_span(&v, k + 1, b);
            assert(t.take(k - a) =~= v@.subrange(a as int, k as int));
            assert(t.skip(k - a + 1) =~= v@.subrange(k + 1, b as int));
            let status = classify_span(&v, a1, b1);
            let gateway = if c < d {
                Some(span_string(output, &v, c, d))
            } else {
                None
            };
            (status, gateway)
        },
        None => {
            let (a1, b1) = trim_span(&v, a, b);
            (classify_span(&v, a1, b1), None)
        },
    }
}

/// The non-blank lines of `ls`, trimmed.
pub open spec fn nonblank_trimmed(ls: Seq<Seq<char>>) -> Seq<Seq<char>>
    decreases ls.len(),
{
    if ls.len() == 0 {
        seq![]
    } else {
        let t = trim(ls.last());
        nonblank_trimmed(ls.drop_last()) + if t.len() == 0 {
            seq![]
        } else {
            seq![t]
        }
    }
}

/// Parse one-name-per-line output: each non-blank line, trimmed.
pub fn parse_gateways_output(output: &str) -> (r: Vec<String>)
    ensures
        string_views(r@) == nonblank_trimmed(lines(output@)),
{
    let v = chars_of(output);
    let spans = line_spans(&v);
    let ghost texts = span_texts(v@, spans@);
    let mut out: Vec<String> = Vec::new();
    let mut k: usize = 0;
    while k < spans.len()
        invariant
            v@ == output@,
            spans_within(spans@, v.len() as int),
            texts == span_texts(v@, spans@),
            k <= spans.len(),
            string_views(out@) == nonblank_trimmed(texts.take(k as int)),
        decreases spans.len() - k,
    {
        let (a, b) = spans[k];
        assert(spans@[k as int].0 <= spans@[k as int].1 <= v.len());
        let (c, d) = trim_span(&v, a, b);
        assert(texts.take(k + 1).drop_last() =~= texts.take(k as int));
        assert(texts.take(k + 1).last() == v@.subrange(a as int, b as int));
        if c < d {
            let ghost old_out = out@;
            out.push(span_string(output, &v, c, d));
            assert(string_views(out@) =~= string_views(old_out) + seq![v@.subrange(c as int, d as int)]);
        } else {
            assert(string_views(out@) =~= string_views(out@) + Seq::<Seq<char>>::empty());
        }
        k = k + 1;
    }
    assert(texts.take(spans.len() as int) =~= texts);
    out
}

// ── Marker-based gateway records ────────────────────────────────────────────

/// The marker that opens a private gateway record.
pub open spec fn private_marker() -> Seq<char> {
    seq!['P', 'R', 'I', 'V', 'A', 'T', 'E', '|']
}

/// The marker that opens a shared gateway record.
pub open spec fn shared_marker() -> Seq<char> {
    seq!['S', 'H', 'A', 'R', 'E', 'D', '|']
}

/// A line break written as the two characters `\` and `n`.
pub open spec fn escaped_newline() -> Seq<char> {
    seq!['\\', 'n']
}

/// The gateway that the body `<id>|<name>` of a record describes: id and
/// name trimmed; none when there is no `|` or the id is blank.
pub open spec fn record_gateway(body: Seq<char>, is_private: bool) -> Seq<(Seq<char>, Seq<char>, bool)> {
    match index_of(body, '|') {
        Some(k) => {
            let id = trim(body.take(k));
            if id.len() == 0 {
                seq![]
            } else {
                seq![(id, trim(body.skip(k + 1)), is_private)]
            }
        },
        None => seq![],
    }
}

/// The gateway of a record that is still open, if any.
pub open spec fn close_record(cur: Option<(bool, Seq<char>)>) -> Seq<(Seq<char>, Seq<char>, bool)> {
    match cur {
        Some((p, body)) => record_gateway(body, p),
        None => seq![],
    }
}

/// The gateways in `s`, given the record that is open before it.
/// A record starts at a marker and ends at the next marker, at a line break
/// (`\n` or an escaped `\n`), or at the end of the text.
pub open spec fn scan_records(s: Seq<char>, cur: Option<(bool, Seq<char>)>) -> Seq<
    (Seq<char>, Seq<char>, bool),
>
    decreases s.len(),
{
    if s.len() == 0 {
        close_record(cur)
    } else if starts_with(s, private_marker()) {
        close_record(cur) + scan_records(s.skip(8), Some((true, seq![])))
    } else if starts_with(s, shared_marker()) {
        close_record(cur) + scan_records(s.skip(7), Some((false, seq![])))
    } else if s[0] == '\n' {
        close_record(cur) + scan_records(s.drop_first(), None)
    } else if starts_with(s, escaped_newline()) {
        close_record(cur) + scan_records(s.skip(2), None)
    } else {
        scan_records(
            s.drop_first(),
            match cur {
                Some((p, body)) => Some((p, body.push(s[0]))),
                None => None,
            },
        )
    }
}

/// The gateways that marker-based `nordlayer gateways` output lists.
pub open spec fn gateway_records(s: Seq<char>) -> Seq<(Seq<char>, Seq<char>, bool)> {
    scan_records(s, None)
}

/// The open record as the parser holds it: its kind and where its body starts.
pub open spec fn open_record(v: Seq<char>, kind: Option<bool>, start: usize, i: usize) -> Option<
    (bool, Seq<char>),
> {
    match kind {
        Some(p) => Some((p, v.subrange(start as int, i as int))),
        None => None,
    }
}

/// Push the gateway of the record body `[a, b)` of `v`, if it has one.
fn push_record(
    output: &str,
    v: &Vec<char>,
    a: usize,
    b: usize,
    is_private: bool,
    out: &mut Vec<Gateway>,
)
    requires
        v@ == output@,
        a <= b <= v.len(),
    ensures
        gateway_views(final(out)@) == gateway_views(old(out)@) + record_gateway(
            v@.subrange(a as int, b as int),
            is_private,
        ),
{
    let ghost body = v@.subrange(a as int, b as int);
    match span_find_char(v, a, b, '|') {
        Some(k) => {
            let (c, d) = trim_span(v, a, k);
            let (e, f) = trim_span(v, k + 1, b);
            assert(body.take(k - a) =~= v@.subrange(a as int, k as int));
            assert(body.skip(k - a + 1) =~= v@.subrange(k + 1, b as int));
            if c < d {
                let g = Gateway {
                    id: span_string(output, v, c, d),
                    name: span_string(output, v, e, f),
                    is_private,
                };
                let ghost old_out = out@;
                out.push(g);
                assert(gateway_views(out@) =~= gateway_views(old_out) + seq![gateway_view(g)]);
            } else {
                assert(gateway_views(out@) =~= gateway_views(out@) + seq![]);
            }
        },
        None => {
            assert(gateway_views(out@) =~= gateway_views(out@) + seq![]);
        },
    }
}

/// Close the open record `[start, i)` of `v`, if any, pushing its gateway.
fn close_open_record(
    output: &str,
    v: &Vec<char>,
    kind: Option<bool>,
    start: usize,
    i: usize,
    out: &mut Vec<Gateway>,
)
    requires
        v@ == output@,
        start <= i <= v.len(),
    ensures
        gateway_views(final(out)@) == gateway_views(old(out)@) + close_record(
            open_record(v@, kind, start, i),
        ),
{
    match kind {
        Some(p) => push_record(output, v, start, i, p, out),
        None => {
            assert(gateway_views(out@) =~= gateway_views(out@) + seq![]);
        },
    }
}

/// After a record boundary of width `w` at `i` (a marker, or a line break),
/// the gateways found so far and the rest of the scan add up as before.
proof fn lemma_boundary_step(
    v: Seq<char>,
    found: Seq<(Seq<char>, Seq<char>, bool)>,
    closed: Seq<(Seq<char>, Seq<char>, bool)>,
    i: int,
    w: int,
    next: Option<(bool, Seq<char>)>,
)
    requires
        0 <= i,
        i + w <= v.len(),
        0 < w,
    ensures
        found + (closed + scan_records(v.skip(i).skip(w), next)) == (found + closed) + scan_records(
            v.skip(i + w),
            next,
        ),
{
    assert(v.skip(i).skip(w) =~= v.skip(i + w));
    assert(found + (closed + scan_records(v.skip(i + w), next)) =~= (found + closed)
        + scan_records(v.skip(i + w), next));
}

/// Parse marker-based `nordlayer gateways -f GATEWAYS_TEMPLATE` output into
/// gateways, in order. Records may stand one per line, be separated by
/// escaped `\n` sequences, or follow each other with no separator at all.
pub fn parse_gateway_records(output: &str) -> (r: Vec<Gateway>)
    ensures
        gateway_views(r@) == gateway_records(output@),
{
    let v = chars_of(output);
    let n = v.len();
    let private_m: Vec<char> = vec!['P', 'R', 'I', 'V', 'A', 'T', 'E', '|'];
    let shared_m: Vec<char> = vec!['S', 'H', 'A', 'R', 'E', 'D', '|'];
    let escaped_nl: Vec<char> = vec!['\\', 'n'];
    assert(private_m@ =~= private_marker());
    assert(shared_m@ =~= shared_marker());
    assert(escaped_nl@ =~= escaped_newline());
    let mut out: Vec<Gateway> = Vec::new();
    let mut kind: Option<bool> = None;
    let mut start: usize = 0;
    let mut i: usize = 0;
    assert(v@.skip(0) =~= v@);
    assert(gateway_views(out@) + gateway_records(v@) =~= gateway_records(v@));
    while i < n
        invariant
            n == v.len(),
            v@ == output@,
            start <= i <= n,
            private_m@ == private_marker(),
            shared_m@ == shared_marker(),
            escaped_nl@ == escaped_newline(),
            gateway_records(v@) == gateway_views(out@) + scan_records(
                v@.skip(i as int),
                open_record(v@, kind, start, i),
            ),
        decreases n - i,
    {
        let ghost rest = v@.skip(i as int);
        let ghost before = gateway_views(out@);
        let ghost closed = close_record(open_record(v@, kind, start, i));
        // Width of the record boundary at `i` and the kind of record after it.
        let boundary: Option<(usize, Option<bool>)> = if starts_with_at(&v, i, &private_m) {
            Some((8, Some(true)))
        } else if starts_with_at(&v, i, &shared_m) {
            Some((7, Some(false)))
        } else if v[i] == '\n' {
            assert(rest[0] == v@[i as int]);
            Some((1, None))
        } else if starts_with_at(&v, i, &escaped_nl) {
            Some((2, None))
        } else {
            None
        };
        match boundary {
            Some((w, next)) => {
                close_open_record(output, &v, kind, start, i, &mut out);
                proof {
                    if w == 1 {
                        assert(rest.drop_first() =~= rest.skip(1));
                    }
                    lemma_boundary_step(v@, before, closed, i as int, w as int, open_record(v@, next, (i + w) as usize, (i + w) as usize));
                    assert(v@.subrange(i + w, i + w) =~= Seq::<char>::empty());
                }
                kind = next;
                i = i + w;
                start = i;
            },
            None => {
                assert(rest.drop_first() =~= v@.skip(i + 1));
                assert(v@.subrange(start as int, i as int).push(v@[i as int]) =~= v@.subrange(
                    start as int,
                    i + 1,
                ));
                i = i + 1;
            },
        }
    }
    assert(v@.skip(n as int) =~= Seq::<char>::empty());
    close_open_record(output, &v, kind, start, n, &mut out);
    out
}

// ── Heuristic / plain-text parsers (fallback) ───────────────────────────────

/// How `parse_connection_status` classifies a text: by the first of these
/// phrases that its lower-cased form contains ("not connected" counts as
/// disconnected, as the status keywords of the client's output require).
pub open spec fn classify(s: Seq<char>) -> ConnectionStatus {
    let low = lowercase(s);
    if contains(low, "not logged in"@) || contains(low, "logged out"@) {
        ConnectionStatus::NotLoggedIn
    } else if contains(low, "reconnecting"@) {
        ConnectionStatus::Reconnecting
    } else if contains(low, "connecting"@) {
        ConnectionStatus::Connecting
    } else if contains(low, "disconnected"@) || contains(low, "not connected"@) {
        ConnectionStatus::Disconnected
    } else if contains(low, "connected"@) {
        ConnectionStatus::Connected
    } else {
        ConnectionStatus::Unknown
    }
}

/// Classify the span `[a, b)` of `v`.
fn classify_span(v: &Vec<char>, a: usize, b: usize) -> (r: ConnectionStatus)
    requires
        a <= b <= v.len(),
    ensures
        r == classify(v@.subrange(a as int, b as int)),
{
    if span_contains_folded_str(v, a, b, "not logged in") || span_contains_folded_str(
        v,
        a,
        b,
        "logged out",
    ) {
        ConnectionStatus::NotLoggedIn
    } else if span_contains_folded_str(v, a, b, "reconnecting") {
        ConnectionStatus::Reconnecting
    } else if span_contains_folded_str(v, a, b, "connecting") {
        ConnectionStatus::Connecting
    } else if span_contains_folded_str(v, a, b, "disconnected") || span_contains_folded_str(
        v,
        a,
        b,
        "not connected",
    ) {
        ConnectionStatus::Disconnected
    } else if span_contains_folded_str(v, a, b, "connected") {
        ConnectionStatus::Connected
    } else {
        ConnectionStatus::Unknown
    }
}

/// Classify a status string from any output format: the template output
/// (`Connected`) as well as the full human-readable text.
pub fn parse_connection_status(output: &str) -> (r: ConnectionStatus)
    ensures
        r == classify(output@),
{
    let v = chars_of(output);
    assert(v@.subrange(0, v.len() as int) =~= v@);
    classify_span(&v, 0, v.len())
}

/// The value after the first `:` of a line, trimmed, if it is not empty.
pub open spec fn colon_value(line: Seq<char>) -> Option<Seq<char>> {
    match index_of(line, ':') {
        Some(k) => {
            let value = trim(line.skip(k + 1));
            if value.len() > 0 {
                Some(value)
            } else {
                None
            }
        },
        None => None,
    }
}

/// The key of a line (the text before its first `:`), ASCII lower-cased,
/// contains `word`; a line without `:` has no key.
pub open spec fn key_mentions(line: Seq<char>, word: Seq<char>) -> bool {
    match index_of(line, ':') {
        Some(k) => contains(lowercase(line.take(k)), word),
        None => false,
    }
}

/// The gateway that a status line names: a line whose key mentions
/// "gateway" or "server" (in any case) and that has a non-blank value
/// after its first `:`.
pub open spec fn status_line_gateway(line: Seq<char>) -> Option<Seq<char>> {
    if key_mentions(line, "gateway"@) || key_mentions(line, "server"@) {
        colon_value(line)
    } else {
        None
    }
}

/// Whether the key of the line `[a, b)` of `v` mentions `word`.
fn span_key_mentions(v: &Vec<char>, a: usize, b: usize, word: &str) -> (r: bool)
    requires
        a <= b <= v.len(),
    ensures
        r == key_mentions(v@.subrange(a as int, b as int), word@),
{
    let ghost line = v@.subrange(a as int, b as int);
    match span_find_char(v, a, b, ':') {
        Some(k) => {
            assert(line.take(k - a) =~= v@.subrange(a as int, k as int));
            span_contains_folded_str(v, a, k, word)
        },
        None => false,
    }
}

/// The gateway named by the first line of `ls` that names one.
pub open spec fn first_status_gateway(ls: Seq<Seq<char>>) -> Option<Seq<char>>
    decreases ls.len(),
{
    if ls.len() == 0 {
        None
    } else {
        match status_line_gateway(ls[0]) {
            Some(g) => Some(g),
            None => first_status_gateway(ls.drop_first()),
        }
    }
}

/// The trimmed value after the first `:` of the span `[a, b)`, if not blank.
fn span_colon_value(output: &str, v: &Vec<char>, a: usize, b: usize) -> (r: Option<String>)
    requires
        v@ == output@,
        a <= b <= v.len(),
    ensures
        opt_view(r) == colon_value(v@.subrange(a as int, b as int)),
{
    let ghost line = v@.subrange(a as int, b as int);
    match span_find_char(v, a, b, ':') {
        Some(k) => {
            let (c, d) = trim_span(v, k + 1, b);
            assert(line.skip(k - a + 1) =~= v@.subrange(k + 1, b as int));
            if c < d {
                Some(span_string(output, v, c, d))
            } else {
                None
            }
        },
        None => None,
    }
}

/// Extract a gateway name from plain-text `nordlayer status` output.
/// Looks for lines whose key contains "gateway" or "server".
pub fn parse_gateway_from_status(output: &str) -> (r: Option<String>)
    ensures
        opt_view(r) == first_status_gateway(lines(output@)),
{
    let v = chars_of(output);
    let spans = line_spans(&v);
    let ghost texts = span_texts(v@, spans@);
    let mut k: usize = 0;
    assert(texts.skip(0) =~= texts);
    while k < spans.len()
        invariant
            v@ == output@,
            spans_within(spans@, v.len() as int),
            texts == span_texts(v@, spans@),
            texts == lines(v@),
            k <= spans.len(),
            first_status_gateway(texts) == first_status_gateway(texts.skip(k as int)),
        decreases spans.len() - k,
    {
        let (a, b) = spans[k];
        assert(spans@[k as int].0 <= spans@[k as int].1 <= v.len());
        let ghost line = v@.subrange(a as int, b as int);
        assert(texts.skip(k as int)[0] == line);
        assert(texts.skip(k as int).drop_first() =~= texts.skip(k + 1));
        if span_key_mentions(&v, a, b, "gateway") || span_key_mentions(&v, a, b, "server") {
            let value = span_colon_value(output, &v, a, b);
            if value.is_some() {
                return value;
            }
        }
        k = k + 1;
    }
    None
}

/// A character of a table rule line.
pub open spec fn is_rule_char(c: char) -> bool {
    c == '-' || c == '+' || c == '|'
}

/// A character stripped from the start of a table row.
pub open spec fn is_lead_char(c: char) -> bool {
    c == '|' || c == '-' || c == '*' || c == ' '
}

/// `s` without its leading `|`, `-`, `*` and spaces.
pub open spec fn strip_lead(s: Seq<char>) -> Seq<char>
    decreases s.len(),
{
    if s.len() > 0 && is_lead_char(s[0]) {
        strip_lead(s.drop_first())
    } else {
        s
    }
}

/// The length of the first cell of a row: up to its first `|` or space.
pub open spec fn cell_len(s: Seq<char>) -> nat
    decreases s.len(),
{
    if s.len() == 0 || s[0] == '|' || s[0] == ' ' {
        0
    } else {
        1 + cell_len(s.drop_first())
    }
}

/// The gateway name in one line of the plain-text gateways table: blank
/// lines, the header (mentioning both "gateway" and "city") and rule lines
/// (only `-`, `+`, `|`) give none; otherwise, with leading `|`, `-`, `*` and
/// spaces stripped, the first cell (up to `|` or a space), if not empty.
pub open spec fn table_row_gateway(line: Seq<char>) -> Option<Seq<char>> {
    let t = trim(line);
    let low = lowercase(t);
    if t.len() == 0 {
        None
    } else if contains(low, "gateway"@) && contains(low, "city"@) {
        None
    } else if forall|i: int| 0 <= i < t.len() ==> is_rule_char(#[trigger] t[i]) {
        None
    } else {
        let r = strip_lead(t);
        if r.len() == 0 {
            None
        } else {
            Some(r.take(cell_len(r) as int))
        }
    }
}

/// The gateway names of the table lines `ls`, in order.
pub open spec fn table_gateways(ls: Seq<Seq<char>>) -> Seq<Seq<char>>
    decreases ls.len(),
{
    if ls.len() == 0 {
        seq![]
    } else {
        table_gateways(ls.drop_last()) + match table_row_gateway(ls.last()) {
            Some(g) => seq![g],
            None => seq![],
        }
    }
}

/// The gateway name of the table row `[a, b)` of `v`, if it has one.
fn table_row_span(output: &str, v: &Vec<char>, a: usize, b: usize) -> (r: Option<String>)
    requires
        v@ == output@,
        a <= b <= v.len(),
    ensures
        opt_view(r) == table_row_gateway(v@.subrange(a as int, b as int)),
{
    let (c, d) = trim_span(v, a, b);
    let ghost t = v@.subrange(c as int, d as int);
    if c == d {
        return None;
    }
    if span_contains_folded_str(v, c, d, "gateway") && span_contains_folded_str(v, c, d, "city") {
        return None;
    }
    let mut i = c;
    while i < d && (v[i] == '-' || v[i] == '+' || v[i] == '|')
        invariant
            c <= i <= d <= v.len(),
            t == v@.subrange(c as int, d as int),
            forall|j: int| 0 <= j < i - c ==> is_rule_char(#[trigger] t[j]),
        decreases d - i,
    {
        i = i + 1;
    }
    if i == d {
        return None;
    }
    assert(!is_rule_char(t[i - c]));
    let mut e = c;
    while e < d && (v[e] == '|' || v[e] == '-' || v[e] == '*' || v[e] == ' ')
        invariant
            c <= e <= d <= v.len(),
            strip_lead(t) == strip_lead(v@.subrange(e as int, d as int)),
        decreases d - e,
    {
        assert(v@.subrange(e as int, d as int).drop_first() =~= v@.subrange(e + 1, d as int));
        e = e + 1;
    }
    if e == d {
        assert(v@.subrange(e as int, d as int) =~= Seq::<char>::empty());
        return None;
    }
    let ghost r = v@.subrange(e as int, d as int);
    let mut f = e;
    while f < d && v[f] != '|' && v[f] != ' '
        invariant
            e <= f <= d <= v.len(),
            r == v@.subrange(e as int, d as int),
            cell_len(r) == (f - e) + cell_len(v@.subrange(f as int, d as int)),
        decreases d - f,
    {
        assert(v@.subrange(f as int, d as int).drop_first() =~= v@.subrange(f + 1, d as int));
        f = f + 1;
    }
    assert(r.take(f - e) =~= v@.subrange(e as int, f as int));
    Some(span_string(output, v, e, f))
}

/// Parse plain-text `nordlayer gateways` table output (fallback): the first
/// cell of each row that is neither blank, the header, nor a rule.
pub fn parse_gateways(output: &str) -> (r: Vec<String>)
    ensures
        string_views(r@) == table_gateways(lines(output@)),
{
    let v = chars_of(output);
    let spans = line_spans(&v);
    let ghost texts = span_texts(v@, spans@);
    let mut out: Vec<String> = Vec::new();
    let mut k: usize = 0;
    while k < spans.len()
        invariant
            v@ == output@,
            spans_within(spans@, v.len() as int),
            texts == span_texts(v@, spans@),
            k <= spans.len(),
            string_views(out@) == table_gateways(texts.take(k as int)),
        decreases spans.len() - k,
    {
        let (a, b) = spans[k];
        assert(spans@[k as int].0 <= spans@[k as int].1 <= v.len());
        assert(texts.take(k + 1).drop_last() =~= texts.take(k as int));
        assert(texts.take(k + 1).last() == v@.subrange(a as int, b as int));
        match table_row_span(output, &v, a, b) {
            Some(g) => {
                let ghost old_out = out@;
                let ghost gv = g@;
                out.push(g);
                assert(string_views(out@) =~= string_views(old_out) + seq![gv]);
            },
            None => {
                assert(string_views(out@) =~= string_views(out@) + Seq::<Seq<char>>::empty());
            },
        }
        k = k + 1;
    }
    assert(texts.take(spans.len() as int) =~= texts);
    out
}

/// Whether a status line reports a login (a `Login: <account>` line): its
/// key mentions "login" (in any case) and it has a non-blank value after
/// its first `:`.
pub open spec fn is_login_line(line: Seq<char>) -> bool {
    key_mentions(line, "login"@) && colon_value(line) is Some
}

/// What `parse_login_state` returns: not logged in when the text says
/// "not logged in" or "logged out" (in any case); logged in when a line
/// reports a login; unknown otherwise.
pub open spec fn login_state(s: Seq<char>) -> Option<bool> {
    let low = lowercase(s);
    if contains(low, "not logged in"@) || contains(low, "logged out"@) {
        Some(false)
    } else if exists|k: int| 0 <= k < lines(s).len() && is_login_line(#[trigger] lines(s)[k]) {
        Some(true)
    } else {
        None
    }
}

/// Read the login state from plain-text `nordlayer status` output.
pub fn parse_login_state(output: &str) -> (r: Option<bool>)
    ensures
        r == login_state(output@),
{
    let v = chars_of(output);
    let n = v.len();
    assert(v@.subrange(0, n as int) =~= v@);
    if span_contains_folded_str(&v, 0, n, "not logged in") || span_contains_folded_str(
        &v,
        0,
        n,
        "logged out",
    ) {
        return Some(false);
    }
    let spans = line_spans(&v);
    let ghost texts = span_texts(v@, spans@);
    let mut k: usize = 0;
    while k < spans.len()
        invariant
            v@ == output@,
            spans_within(spans@, v.len() as int),
            texts == span_texts(v@, spans@),
            texts == lines(v@),
            k <= spans.len(),
            !contains(lowercase(output@), "not logged in"@),
            !contains(lowercase(output@), "logged out"@),
            forall|j: int| 0 <= j < k ==> !is_login_line(#[trigger] texts[j]),
        decreases spans.len() - k,
    {
        let (a, b) = spans[k];
        assert(spans@[k as int].0 <= spans@[k as int].1 <= v.len());
        assert(texts[k as int] == v@.subrange(a as int, b as int));
        if span_key_mentions(&v, a, b, "login") {
            let value = span_colon_value(output, &v, a, b);
            if value.is_some() {
                assert(is_login_line(lines(output@)[k as int]));
                assert(0 <= k < lines(output@).len());
                return Some(true);
            }
        }
        k = k + 1;
    }
    None
}

} // verus!
