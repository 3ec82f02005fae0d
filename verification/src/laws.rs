//! Properties of the parsers and of the tray that span several functions.
use vstd::prelude::*;
use crate::text::{
    contains, index_of, is_whitespace, join, lemma_index_of_is, lines, lines_from, lowercase,
    occurs_at, starts_with, strip_cr, to_lower, trim, trim_end, trim_start,
};
use crate::tray::{
    action_details, action_steps_of, first_lines, max_detail_lines, notification_summary,
    snapshot_of, status_line_agrees, ActionView, StepView,
};
use crate::tray::{check_prefix, gateway_label_text};
use crate::parser::{
    cell_len, colon_value, first_status_gateway, is_lead_char, is_login_line, is_rule_char,
    key_mentions, login_state, status_line_gateway, strip_lead, table_row_gateway,
    classify, close_record, escaped_newline, gateway_records, nonblank_trimmed, private_marker,
    record_gateway, scan_records, shared_marker, status_label, status_output, ConnectionStatus,
};

verus! {

// ── Gateway record streams ──────────────────────────────────────────────────

/// The marker that opens a record of the given kind.
pub open spec fn record_marker(is_private: bool) -> Seq<char> {
    if is_private {
        private_marker()
    } else {
        shared_marker()
    }
}

/// The text between the marker and the separator: `<id>|<name>`.
pub open spec fn record_body(g: (Seq<char>, Seq<char>, bool)) -> Seq<char> {
    g.0 + seq!['|'] + g.1
}

/// Gateways written as the gateways template writes them, with `sep` after
/// each record.
pub open spec fn render_records(gs: Seq<(Seq<char>, Seq<char>, bool)>, sep: Seq<char>) -> Seq<char>
    decreases gs.len(),
{
    if gs.len() == 0 {
        seq![]
    } else {
        record_marker(gs[0].2) + record_body(gs[0]) + sep + render_records(gs.drop_first(), sep)
    }
}

/// The three ways records are separated: a newline, an escaped newline
/// (`\` then `n`), or nothing at all (glued records).
pub open spec fn is_record_separator(sep: Seq<char>) -> bool {
    sep == seq!['\n'] || sep == escaped_newline() || sep.len() == 0
}

/// A text holds no line break, no escaped line break and no marker.
pub open spec fn is_plain_text(s: Seq<char>) -> bool {
    &&& forall|i: int| 0 <= i < s.len() ==> s[i] != '\n'
    &&& forall|i: int| !occurs_at(s, escaped_newline(), i)
    &&& forall|i: int| !occurs_at(s, private_marker(), i)
    &&& forall|i: int| !occurs_at(s, shared_marker(), i)
}

/// A gateway that a record can carry unchanged: a non-blank id without `|`,
/// id and name without surrounding whitespace, and a body of plain text.
pub open spec fn is_writable_gateway(g: (Seq<char>, Seq<char>, bool)) -> bool {
    &&& g.0.len() > 0
    &&& forall|i: int| 0 <= i < g.0.len() ==> g.0[i] != '|'
    &&& trim(g.0) == g.0
    &&& trim(g.1) == g.1
    &&& is_plain_text(record_body(g))
}

/// What may follow a record body: nothing, a separator, or the next marker.
pub open spec fn may_follow_body(t: Seq<char>) -> bool {
    t.len() == 0 || t[0] == '\n' || t[0] == '\\' || t[0] == 'P' || t[0] == 'S'
}

/// Scanning plain text inside an open record only extends the record.
proof fn lemma_scan_plain_body(body: Seq<char>, t: Seq<char>, p: bool, acc: Seq<char>)
    requires
        is_plain_text(body),
        may_follow_body(t),
    ensures
        scan_records(body + t, Some((p, acc))) == scan_records(t, Some((p, acc + body))),
    decreases body.len(),
{
    if body.len() == 0 {
        assert(body + t =~= t);
        assert(acc + body =~= acc);
    } else {
        let s = body + t;
        let pm = private_marker();
        let sm = shared_marker();
        let en = escaped_newline();
        assert(s[0] == body[0]);
        assert(!starts_with(s, pm)) by {
            if starts_with(s, pm) {
                if pm.len() <= body.len() {
                    assert(body.subrange(0, pm.len() as int) =~= s.take(pm.len() as int));
                    assert(occurs_at(body, pm, 0));
                } else {
                    assert(s.take(pm.len() as int)[body.len() as int] == s[body.len() as int]);
                    assert(s[body.len() as int] == t[0]);
                }
            }
        }
        assert(!starts_with(s, sm)) by {
            if starts_with(s, sm) {
                if sm.len() <= body.len() {
                    assert(body.subrange(0, sm.len() as int) =~= s.take(sm.len() as int));
                    assert(occurs_at(body, sm, 0));
                } else {
                    assert(s.take(sm.len() as int)[body.len() as int] == s[body.len() as int]);
                    assert(s[body.len() as int] == t[0]);
                }
            }
        }
        assert(!starts_with(s, en)) by {
            if starts_with(s, en) {
                if en.len() <= body.len() {
                    assert(body.subrange(0, en.len() as int) =~= s.take(en.len() as int));
                    assert(occurs_at(body, en, 0));
                } else {
                    assert(s.take(en.len() as int)[body.len() as int] == s[body.len() as int]);
                    assert(s[body.len() as int] == t[0]);
                }
            }
        }
        let rest = body.drop_first();
        assert(is_plain_text(rest)) by {
            assert forall|i: int| 0 <= i < rest.len() implies rest[i] != '\n' by {
                assert(rest[i] == body[i + 1]);
            }
            assert forall|i: int| !occurs_at(rest, en, i) by {
                if occurs_at(rest, en, i) {
                    assert(body.subrange(i + 1, i + 1 + en.len()) =~= rest.subrange(i, i + en.len()));
                    assert(occurs_at(body, en, i + 1));
                }
            }
            assert forall|i: int| !occurs_at(rest, pm, i) by {
                if occurs_at(rest, pm, i) {
                    assert(body.subrange(i + 1, i + 1 + pm.len()) =~= rest.subrange(i, i + pm.len()));
                    assert(occurs_at(body, pm, i + 1));
                }
            }
            assert forall|i: int| !occurs_at(rest, sm, i) by {
                if occurs_at(rest, sm, i) {
                    assert(body.subrange(i + 1, i + 1 + sm.len()) =~= rest.subrange(i, i + sm.len()));
                    assert(occurs_at(body, sm, i + 1));
                }
            }
        }
        assert(s.drop_first() =~= rest + t);
        lemma_scan_plain_body(rest, t, p, acc.push(body[0]));
        assert(acc.push(body[0]) + rest =~= acc + body);
    }
}

/// The body of a writable gateway's record yields exactly that gateway.
proof fn lemma_record_body_gateway(g: (Seq<char>, Seq<char>, bool))
    requires
        is_writable_gateway(g),
    ensures
        record_gateway(record_body(g), g.2) == seq![g],
{
    let body = record_body(g);
    let k = g.0.len() as int;
    assert(body[k] == '|');
    assert forall|j: int| 0 <= j < k implies body[j] != '|' by {
        assert(body[j] == g.0[j]);
    }
    lemma_index_of_is(body, '|', k);
    assert(body.take(k) =~= g.0);
    assert(body.skip(k + 1) =~= g.1);
}

/// Records written with any separator read back, from any parser state.
proof fn lemma_scan_rendered(
    gs: Seq<(Seq<char>, Seq<char>, bool)>,
    sep: Seq<char>,
    cur: Option<(bool, Seq<char>)>,
)
    requires
        forall|i: int| 0 <= i < gs.len() ==> is_writable_gateway(#[trigger] gs[i]),
        is_record_separator(sep),
    ensures
        scan_records(render_records(gs, sep), cur) == close_record(cur) + gs,
    decreases gs.len(),
{
    if gs.len() == 0 {
        assert(close_record(cur) + gs =~= close_record(cur));
    } else {
        let g = gs[0];
        let m = record_marker(g.2);
        let body = record_body(g);
        let rest_gs = gs.drop_first();
        let r = render_records(rest_gs, sep);
        let t = sep + r;
        let s = render_records(gs, sep);
        assert(s =~= m + (body + t));
        assert(forall|i: int| 0 <= i < rest_gs.len() ==> is_writable_gateway(#[trigger] rest_gs[i])) by {
            assert forall|i: int| 0 <= i < rest_gs.len() implies is_writable_gateway(#[trigger] rest_gs[i]) by {
                assert(rest_gs[i] == gs[i + 1]);
            }
        }
        // The rendered rest is empty or starts with a marker.
        if rest_gs.len() > 0 {
            assert(r[0] == record_marker(rest_gs[0].2)[0]);
        }
        assert(may_follow_body(t)) by {
            if sep.len() > 0 {
                assert(t[0] == sep[0]);
            } else {
                assert(t =~= r);
            }
        }
        // The record's marker opens the record.
        if g.2 {
            assert(s.take(8) =~= private_marker());
            assert(s.skip(8) =~= body + t);
        } else {
            assert(s[0] == 'S');
            assert(s.take(7) =~= shared_marker());
            assert(s.skip(7) =~= body + t);
        }
        lemma_scan_plain_body(body, t, g.2, seq![]);
        assert(Seq::<char>::empty() + body =~= body);
        lemma_record_body_gateway(g);
        lemma_scan_rendered(rest_gs, sep, None);
        if sep == seq!['\n'] {
            assert(t[0] == '\n');
            assert(t.drop_first() =~= r);
        } else if sep == escaped_newline() {
            assert(t[0] == '\\');
            assert(t.take(2) =~= escaped_newline());
            assert(t.skip(2) =~= r);
        } else {
            assert(t =~= r);
            lemma_scan_rendered(rest_gs, sep, Some((g.2, body)));
        }
        assert(close_record(cur) + (seq![g] + rest_gs) =~= close_record(cur) + gs);
        assert(seq![g] + rest_gs =~= gs);
    }
}

/// Gateway records read back unchanged whichever way they are separated:
/// one per line, separated by escaped `\n` sequences, or glued together.
pub proof fn lemma_gateway_record_streams(gs: Seq<(Seq<char>, Seq<char>, bool)>, sep: Seq<char>)
    requires
        forall|i: int| 0 <= i < gs.len() ==> is_writable_gateway(#[trigger] gs[i]),
        is_record_separator(sep),
    ensures
        gateway_records(render_records(gs, sep)) == gs,
{
    lemma_scan_rendered(gs, sep, None);
    assert(close_record(None) + gs =~= gs);
}

// ── The tray's status line ──────────────────────────────────────────────────

/// Whatever `nordlayer status` prints, the status read from it shows a
/// gateway only while connected, names that gateway in the status line, and
/// otherwise shows the label of the connection state.
pub proof fn lemma_snapshot_status_line_agrees(s: Seq<char>)
    ensures
        status_line_agrees(snapshot_of(s)),
{
}

// ── Notifications ───────────────────────────────────────────────────────────

/// Every notification summary names the action and the status, so that a
/// shell that hides notification bodies still shows both.
pub proof fn lemma_summary_names_action_and_status(
    action: Seq<char>,
    status: Seq<char>,
    is_error: bool,
)
    ensures
        contains(notification_summary(action, status, is_error), action),
        contains(notification_summary(action, status, is_error), status),
{
    reveal_strlit("NordLayer: ");
    reveal_strlit(" failed (");
    reveal_strlit(" (");
    reveal_strlit(")");
    let summary = notification_summary(action, status, is_error);
    let head = "NordLayer: "@;
    let mid = if is_error { " failed ("@ } else { " ("@ };
    assert(summary =~= head + action + mid + status + ")"@);
    let a = head.len() as int;
    let b = a + action.len() + mid.len();
    assert(summary.subrange(a, a + action.len()) =~= action);
    assert(occurs_at(summary, action, a));
    assert(summary.subrange(b, b + status.len()) =~= status);
    assert(occurs_at(summary, status, b));
}

/// An action's notification body shows at most eight lines of the client's
/// output, the first ones in order, and ends with the status line.
pub proof fn lemma_action_details_shape(action: Seq<char>, output: Seq<char>, status: Seq<char>)
    ensures
        first_lines(lines(output), max_detail_lines()).len() <= 8,
        forall|i: int|
            0 <= i < first_lines(lines(output), max_detail_lines()).len() ==> #[trigger] first_lines(
                lines(output),
                max_detail_lines(),
            )[i] == lines(output)[i],
        exists|head: Seq<char>| action_details(action, output, status) == head + "\nStatus: "@ + status,
{
    let d = action_details(action, output, status);
    let tail = "\nStatus: "@ + status;
    let head = d.subrange(0, d.len() - tail.len());
    assert(d =~= head + tail);
    assert(head + "\nStatus: "@ + status =~= head + tail);
}

// ── Template status output ──────────────────────────────────────────────────

/// A text with no whitespace at either end is its own trim.
proof fn lemma_trim_unpadded(s: Seq<char>)
    requires
        s.len() > 0,
        !is_whitespace(s[0]),
        !is_whitespace(s.last()),
    ensures
        trim(s) == s,
{
    assert(trim_start(s) == s);
    assert(trim_end(s) == s);
}

/// Output in the `STATUS_TEMPLATE` form `<status>\t<server>` reads back as
/// the classified status and the server.
pub proof fn lemma_status_template_reads_back(status: Seq<char>, server: Seq<char>)
    requires
        status.len() > 0,
        !is_whitespace(status[0]),
        forall|i: int| 0 <= i < status.len() ==> status[i] != '\t',
        server.len() > 0,
        trim(server) == server,
    ensures
        status_output(status + seq!['\t'] + server) == (classify(trim(status)), Some(server)),
{
    let t = status + seq!['\t'] + server;
    let k = status.len() as int;
    assert(t[0] == status[0]);
    assert(!is_whitespace(server.last())) by {
        if is_whitespace(server.last()) {
            assert(trim_end(trim_start(server)).len() < server.len()) by {
                lemma_trim_shortens(server);
            }
        }
    }
    assert(t.last() == server.last());
    lemma_trim_unpadded(t);
    assert(t[k] == '\t');
    assert forall|j: int| 0 <= j < k implies t[j] != '\t' by {
        assert(t[j] == status[j]);
    }
    lemma_index_of_is(t, '\t', k);
    assert(t.take(k) =~= status);
    assert(t.skip(k + 1) =~= server);
}

/// Trimming a text that ends in whitespace makes it shorter.
proof fn lemma_trim_shortens(s: Seq<char>)
    requires
        s.len() > 0,
        is_whitespace(s.last()),
    ensures
        trim_end(trim_start(s)).len() < s.len(),
    decreases s.len(),
{
    if is_whitespace(s[0]) {
        lemma_trim_len(s.drop_first());
        lemma_trim_len(trim_start(s));
    } else {
        assert(trim_start(s) == s);
        lemma_trim_len(s.drop_last());
    }
}

/// Trimming never makes a text longer.
proof fn lemma_trim_len(s: Seq<char>)
    ensures
        trim_start(s).len() <= s.len(),
        trim_end(s).len() <= s.len(),
    decreases s.len(),
{
    if s.len() > 0 {
        lemma_trim_len(s.drop_first());
        lemma_trim_len(s.drop_last());
    }
}

// ── Status labels ───────────────────────────────────────────────────────────

/// A text without upper-case ASCII letters is its own lower-case form.
proof fn lemma_lowercase_fixed(s: Seq<char>)
    requires
        forall|i: int| 0 <= i < s.len() ==> !('A' <= #[trigger] s[i] && s[i] <= 'Z'),
    ensures
        lowercase(s) == s,
{
    assert(lowercase(s) =~= s);
}

/// A pattern whose first character does not occur early enough in `s` does
/// not occur in `s`.
proof fn lemma_absent_by_first_char(s: Seq<char>, p: Seq<char>)
    requires
        p.len() > 0,
        forall|i: int| 0 <= i && i + p.len() <= s.len() ==> #[trigger] s[i] != p[0],
    ensures
        !contains(s, p),
{
    assert forall|i: int| !occurs_at(s, p, i) by {
        if occurs_at(s, p, i) {
            assert(s.subrange(i, i + p.len())[0] == s[i]);
        }
    }
}

/// `p` does not occur in `s` when `s` is at most two characters longer
/// than `p` and none of the first characters of `s` starts `p`.
proof fn lemma_absent_near_start(s: Seq<char>, p: Seq<char>)
    requires
        p.len() > 0,
        s.len() <= p.len() + 2,
        s.len() > 0 ==> s[0] != p[0],
        s.len() > 1 ==> s[1] != p[0],
        s.len() > 2 ==> s[2] != p[0],
    ensures
        !contains(s, p),
{
    assert forall|i: int| 0 <= i && i + p.len() <= s.len() implies #[trigger] s[i] != p[0] by {
        assert(i == 0 || i == 1 || i == 2);
    }
    lemma_absent_by_first_char(s, p);
}

/// A text occurs in itself.
proof fn lemma_contains_self(s: Seq<char>)
    ensures
        contains(s, s),
{
    assert(s.subrange(0, s.len() as int) =~= s);
    assert(occurs_at(s, s, 0));
}

proof fn lemma_classify_connected()
    ensures
        classify("connected"@) == ConnectionStatus::Connected,
{
    reveal_strlit("connected");
    reveal_strlit("not logged in");
    reveal_strlit("logged out");
    reveal_strlit("reconnecting");
    reveal_strlit("connecting");
    reveal_strlit("disconnected");
    reveal_strlit("not connected");
    let l = "connected"@;
    lemma_lowercase_fixed(l);
    lemma_contains_self(l);
    lemma_absent_by_first_char(l, "not logged in"@);
    lemma_absent_by_first_char(l, "logged out"@);
    lemma_absent_by_first_char(l, "reconnecting"@);
    lemma_absent_by_first_char(l, "connecting"@);
    lemma_absent_by_first_char(l, "disconnected"@);
}

#[verifier::rlimit(40)]
#[verifier::spinoff_prover]
proof fn lemma_classify_disconnected()
    ensures
        classify("disconnected"@) == ConnectionStatus::Disconnected,
{
    reveal_strlit("disconnected");
    reveal_strlit("not logged in");
    reveal_strlit("logged out");
    reveal_strlit("reconnecting");
    reveal_strlit("connecting");
    let l = "disconnected"@;
    lemma_lowercase_fixed(l);
    lemma_contains_self(l);
    lemma_absent_by_first_char(l, "not logged in"@);
    lemma_absent_near_start(l, "logged out"@);
    lemma_absent_near_start(l, "reconnecting"@);
    lemma_absent_near_start(l, "connecting"@);
}

proof fn lemma_classify_connecting()
    ensures
        classify("connecting"@) == ConnectionStatus::Connecting,
{
    reveal_strlit("connecting");
    reveal_strlit("not logged in");
    reveal_strlit("logged out");
    reveal_strlit("reconnecting");
    let l = "connecting"@;
    lemma_lowercase_fixed(l);
    lemma_contains_self(l);
    lemma_absent_by_first_char(l, "not logged in"@);
    lemma_absent_near_start(l, "logged out"@);
    lemma_absent_by_first_char(l, "reconnecting"@);
}

proof fn lemma_classify_reconnecting()
    ensures
        classify("reconnecting"@) == ConnectionStatus::Reconnecting,
{
    reveal_strlit("reconnecting");
    reveal_strlit("not logged in");
    reveal_strlit("logged out");
    let l = "reconnecting"@;
    lemma_lowercase_fixed(l);
    lemma_contains_self(l);
    lemma_absent_by_first_char(l, "not logged in"@);
    lemma_absent_near_start(l, "logged out"@);
}

proof fn lemma_classify_not_logged_in()
    ensures
        classify("not logged in"@) == ConnectionStatus::NotLoggedIn,
{
    reveal_strlit("not logged in");
    let l = "not logged in"@;
    lemma_lowercase_fixed(l);
    lemma_contains_self(l);
}

proof fn lemma_classify_unknown()
    ensures
        classify("unknown"@) == ConnectionStatus::Unknown,
{
    reveal_strlit("unknown");
    reveal_strlit("not logged in");
    reveal_strlit("logged out");
    reveal_strlit("reconnecting");
    reveal_strlit("connecting");
    reveal_strlit("disconnected");
    reveal_strlit("not connected");
    reveal_strlit("connected");
    let l = "unknown"@;
    lemma_lowercase_fixed(l);
    lemma_absent_by_first_char(l, "not logged in"@);
    lemma_absent_by_first_char(l, "logged out"@);
    lemma_absent_by_first_char(l, "reconnecting"@);
    lemma_absent_by_first_char(l, "connecting"@);
    lemma_absent_by_first_char(l, "disconnected"@);
    lemma_absent_by_first_char(l, "not connected"@);
    lemma_absent_by_first_char(l, "connected"@);
}

/// Reading a state's label as status text gives that state back: the labels
/// the tray shows are classified as the states they name.
pub proof fn lemma_label_classifies_as_itself(st: ConnectionStatus)
    ensures
        classify(status_label(st)) == st,
{
    match st {
        ConnectionStatus::Connected => lemma_classify_connected(),
        ConnectionStatus::Disconnected => lemma_classify_disconnected(),
        ConnectionStatus::Connecting => lemma_classify_connecting(),
        ConnectionStatus::Reconnecting => lemma_classify_reconnecting(),
        ConnectionStatus::NotLoggedIn => lemma_classify_not_logged_in(),
        ConnectionStatus::Unknown => lemma_classify_unknown(),
    }
}

// ── One-name-per-line output ────────────────────────────────────────────────

/// Trailing whitespace does not change a trimmed text.
proof fn lemma_trim_push_whitespace(s: Seq<char>, c: char)
    requires
        is_whitespace(c),
    ensures
        trim(s.push(c)) == trim(s),
{
    lemma_trim_start_push(s, c);
    let t = trim_start(s);
    if t.len() > 0 {
        assert(t.push(c).drop_last() =~= t);
    }
}

/// Trimming the start of `s` with a character pushed at its end.
proof fn lemma_trim_start_push(s: Seq<char>, c: char)
    requires
        is_whitespace(c),
    ensures
        trim_start(s.push(c)) == if trim_start(s).len() == 0 {
            Seq::<char>::empty()
        } else {
            trim_start(s).push(c)
        },
    decreases s.len(),
{
    assert(s.push(c).len() > 0);
    if s.len() == 0 {
        assert(s.push(c)[0] == c);
        assert(s.push(c).drop_first() =~= Seq::<char>::empty());
        assert(trim_start(Seq::<char>::empty()) =~= Seq::<char>::empty());
    } else {
        assert(s.push(c)[0] == s[0]);
        if is_whitespace(s[0]) {
            assert(s.push(c).drop_first() =~= s.drop_first().push(c));
            lemma_trim_start_push(s.drop_first(), c);
        }
    }
}

/// Keeping the non-blank trimmed lines distributes over concatenation.
proof fn lemma_nonblank_concat(x: Seq<Seq<char>>, y: Seq<Seq<char>>)
    ensures
        nonblank_trimmed(x + y) == nonblank_trimmed(x) + nonblank_trimmed(y),
    decreases y.len(),
{
    if y.len() == 0 {
        assert(x + y =~= x);
        assert(nonblank_trimmed(x) + nonblank_trimmed(y) =~= nonblank_trimmed(x));
    } else {
        assert((x + y).drop_last() =~= x + y.drop_last());
        assert((x + y).last() == y.last());
        lemma_nonblank_concat(x, y.drop_last());
        assert(nonblank_trimmed(x + y) =~= nonblank_trimmed(x) + nonblank_trimmed(y));
    }
}

/// Splitting lines at a line break: what comes after it starts afresh.
proof fn lemma_lines_from_split(a: Seq<char>, b: Seq<char>, cur: Seq<char>)
    ensures
        lines_from(a + seq!['\n'] + b, cur) == lines_from(a + seq!['\n'], cur) + lines_from(
            b,
            seq![],
        ),
    decreases a.len(),
{
    let s = a + seq!['\n'] + b;
    let s1 = a + seq!['\n'];
    let rest = lines_from(b, seq![]);
    if a.len() == 0 {
        assert(s.drop_first() =~= b);
        assert(s1.drop_first() =~= Seq::<char>::empty());
        assert(s[0] == '\n');
        assert(s1[0] == '\n');
        let x = seq![strip_cr(cur)];
        assert(lines_from(Seq::<char>::empty(), seq![]) =~= Seq::<Seq<char>>::empty());
        assert(lines_from(s1, cur) =~= x);
        assert(lines_from(s, cur) =~= x + rest);
    } else {
        assert(s[0] == a[0]);
        assert(s1[0] == a[0]);
        assert(s.drop_first() =~= a.drop_first() + seq!['\n'] + b);
        assert(s1.drop_first() =~= a.drop_first() + seq!['\n']);
        if a[0] == '\n' {
            lemma_lines_from_split(a.drop_first(), b, seq![]);
            let x = seq![strip_cr(cur)];
            let m = lines_from(a.drop_first() + seq!['\n'], seq![]);
            assert(lines_from(s, cur) =~= x + (m + rest));
            assert(lines_from(s1, cur) =~= x + m);
            assert(x + (m + rest) =~= (x + m) + rest);
        } else {
            lemma_lines_from_split(a.drop_first(), b, cur.push(a[0]));
        }
    }
}

/// A final line break adds no non-blank line.
proof fn lemma_nonblank_final_break(a: Seq<char>, cur: Seq<char>)
    ensures
        nonblank_trimmed(lines_from(a + seq!['\n'], cur)) == nonblank_trimmed(lines_from(a, cur)),
    decreases a.len(),
{
    let s1 = a + seq!['\n'];
    if a.len() == 0 {
        assert(s1.drop_first() =~= Seq::<char>::empty());
        assert(s1[0] == '\n');
        assert(trim(strip_cr(cur)) == trim(cur)) by {
            if cur.len() > 0 && cur.last() == '\r' {
                assert(cur.drop_last().push('\r') =~= cur);
                lemma_trim_push_whitespace(cur.drop_last(), '\r');
            }
        }
        let l1 = seq![strip_cr(cur)];
        assert(lines_from(Seq::<char>::empty(), seq![]) =~= Seq::<Seq<char>>::empty());
        assert(lines_from(s1, cur) =~= l1);
        assert(l1.drop_last() =~= Seq::<Seq<char>>::empty());
        if cur.len() == 0 {
            assert(trim_start(cur) =~= cur);
        } else {
            let l2 = seq![cur];
            assert(l2.drop_last() =~= Seq::<Seq<char>>::empty());
        }
    } else {
        assert(s1[0] == a[0]);
        assert(s1.drop_first() =~= a.drop_first() + seq!['\n']);
        if a[0] == '\n' {
            lemma_nonblank_final_break(a.drop_first(), seq![]);
            lemma_nonblank_concat(seq![strip_cr(cur)], lines_from(a.drop_first() + seq!['\n'], seq![]));
            lemma_nonblank_concat(seq![strip_cr(cur)], lines_from(a.drop_first(), seq![]));
        } else {
            lemma_nonblank_final_break(a.drop_first(), cur.push(a[0]));
        }
    }
}

/// Reading one name per line from two texts joined by a line break gives
/// the names of the first text followed by those of the second.
pub proof fn lemma_nonblank_lines_of_joined(a: Seq<char>, b: Seq<char>)
    ensures
        nonblank_trimmed(lines(a + seq!['\n'] + b)) == nonblank_trimmed(lines(a)) + nonblank_trimmed(
            lines(b),
        ),
{
    lemma_lines_from_split(a, b, seq![]);
    lemma_nonblank_concat(lines_from(a + seq!['\n'], seq![]), lines_from(b, seq![]));
    lemma_nonblank_final_break(a, seq![]);
}

// ── Menu actions ────────────────────────────────────────────────────────────

/// Every menu action except Quit reads the status again; running the client
/// is followed at once by reading the status, and the result is notified
/// right after that reading.
pub proof fn lemma_actions_read_status_after_running(a: ActionView)
    ensures
        !(a is Quit) ==> exists|i: int|
            0 <= i < action_steps_of(a).len() && #[trigger] action_steps_of(a)[i] is ReadStatus,
        forall|i: int|
            0 <= i < action_steps_of(a).len() && #[trigger] action_steps_of(a)[i] is RunClient
                ==> i + 1 < action_steps_of(a).len() && action_steps_of(a)[i + 1] is ReadStatus,
        forall|i: int|
            0 <= i < action_steps_of(a).len() && #[trigger] action_steps_of(a)[i] is NotifyActionResult
                ==> 0 < i && action_steps_of(a)[i - 1] is ReadStatus,
{
    let st = action_steps_of(a);
    match a {
        ActionView::Run(_, _) => {
            assert(st[1] is ReadStatus);
        },
        ActionView::RefreshStatus => {
            assert(st[0] is ReadStatus);
        },
        ActionView::RefreshGateways => {
            assert(st[1] is ReadStatus);
        },
        ActionView::Quit => {},
    }
}

// ── The gateway named in status output ──────────────────────────────────────

/// A status line names a gateway when its key (the text before its first
/// `:`) mentions "gateway" or "server" in any case and the trimmed text
/// after that `:` is not blank; the gateway is that trimmed text.
pub proof fn lemma_status_line_names_gateway(line: Seq<char>, k: int)
    requires
        0 <= k < line.len(),
        line[k] == ':',
        forall|j: int| 0 <= j < k ==> line[j] != ':',
        contains(lowercase(line.subrange(0, k)), "gateway"@) || contains(
            lowercase(line.subrange(0, k)),
            "server"@,
        ),
        trim(line.subrange(k + 1, line.len() as int)).len() > 0,
    ensures
        status_line_gateway(line) == Some(trim(line.subrange(k + 1, line.len() as int))),
{
    lemma_index_of_is(line, ':', k);
    assert(line.take(k) =~= line.subrange(0, k));
    assert(line.skip(k + 1) =~= line.subrange(k + 1, line.len() as int));
}

/// A line whose key mentions neither "gateway" nor "server" names no gateway.
pub proof fn lemma_status_line_other_key(line: Seq<char>, k: int)
    requires
        0 <= k < line.len(),
        line[k] == ':',
        forall|j: int| 0 <= j < k ==> line[j] != ':',
        !contains(lowercase(line.subrange(0, k)), "gateway"@),
        !contains(lowercase(line.subrange(0, k)), "server"@),
    ensures
        status_line_gateway(line) is None,
{
    lemma_index_of_is(line, ':', k);
    assert(line.take(k) =~= line.subrange(0, k));
}

/// The first line that names a gateway gives the gateway: whatever lines
/// follow it, and even when later lines name other gateways.
pub proof fn lemma_first_gateway_line_wins(ls: Seq<Seq<char>>, i: int, g: Seq<char>)
    requires
        0 <= i < ls.len(),
        status_line_gateway(ls[i]) == Some(g),
        forall|j: int| 0 <= j < i ==> status_line_gateway(#[trigger] ls[j]) is None,
    ensures
        first_status_gateway(ls) == Some(g),
    decreases i,
{
    if i > 0 {
        let rest = ls.drop_first();
        assert(status_line_gateway(ls[0]) is None);
        assert(rest[i - 1] == ls[i]);
        assert forall|j: int| 0 <= j < i - 1 implies status_line_gateway(#[trigger] rest[j]) is None by {
            assert(rest[j] == ls[j + 1]);
        }
        lemma_first_gateway_line_wins(rest, i - 1, g);
    }
}

/// When no line names a gateway, none is found.
pub proof fn lemma_no_gateway_line(ls: Seq<Seq<char>>)
    requires
        forall|j: int| 0 <= j < ls.len() ==> status_line_gateway(#[trigger] ls[j]) is None,
    ensures
        first_status_gateway(ls) is None,
    decreases ls.len(),
{
    if ls.len() > 0 {
        assert(status_line_gateway(ls[0]) is None);
        let rest = ls.drop_first();
        assert forall|j: int| 0 <= j < rest.len() implies status_line_gateway(#[trigger] rest[j]) is None by {
            assert(rest[j] == ls[j + 1]);
        }
        lemma_no_gateway_line(rest);
    }
}

/// Lines added after the gateway was found do not change it.
pub proof fn lemma_gateway_unchanged_by_later_lines(ls: Seq<Seq<char>>, more: Seq<Seq<char>>)
    requires
        first_status_gateway(ls) is Some,
    ensures
        first_status_gateway(ls + more) == first_status_gateway(ls),
    decreases ls.len(),
{
    assert(ls.len() > 0);
    assert((ls + more)[0] == ls[0]);
    if status_line_gateway(ls[0]) is None {
        assert((ls + more).drop_first() =~= ls.drop_first() + more);
        lemma_gateway_unchanged_by_later_lines(ls.drop_first(), more);
    }
}

// ── Rows of the plain-text gateways table ───────────────────────────────────

/// `strip_lead` drops exactly the leading `|`, `-`, `*` and spaces.
proof fn lemma_strip_lead_at(t: Seq<char>, k: int)
    requires
        0 <= k <= t.len(),
        forall|j: int| 0 <= j < k ==> is_lead_char(t[j]),
        k == t.len() || !is_lead_char(t[k]),
    ensures
        strip_lead(t) == t.skip(k),
    decreases k,
{
    if k == 0 {
        assert(t.skip(0) =~= t);
    } else {
        assert(is_lead_char(t[0]));
        let r = t.drop_first();
        assert forall|j: int| 0 <= j < k - 1 implies is_lead_char(r[j]) by {
            assert(r[j] == t[j + 1]);
        }
        if k < t.len() {
            assert(r[k - 1] == t[k]);
        }
        lemma_strip_lead_at(r, k - 1);
        assert(r.skip(k - 1) =~= t.skip(k));
    }
}

/// `cell_len` is the position of the first `|` or space.
proof fn lemma_cell_len_at(r: Seq<char>, m: int)
    requires
        0 <= m <= r.len(),
        forall|j: int| 0 <= j < m ==> r[j] != '|' && r[j] != ' ',
        m == r.len() || r[m] == '|' || r[m] == ' ',
    ensures
        cell_len(r) == m,
    decreases m,
{
    if m > 0 {
        let q = r.drop_first();
        assert forall|j: int| 0 <= j < m - 1 implies q[j] != '|' && q[j] != ' ' by {
            assert(q[j] == r[j + 1]);
        }
        if m < r.len() {
            assert(q[m - 1] == r[m]);
        }
        lemma_cell_len_at(q, m - 1);
    }
}

/// A table row gives its first cell: after the leading `|`, `-`, `*` and
/// spaces, the text up to the next `|` or space. This holds for every row
/// that is not the header (a line that mentions both "gateway" and "city",
/// in any case) and not a rule line (only `-`, `+`, `|`); in particular a
/// row that mentions "city" but not "gateway" is a row.
pub proof fn lemma_table_row_first_cell(line: Seq<char>, k: int, m: int)
    requires
        0 <= k,
        0 < m,
        k + m <= trim(line).len(),
        forall|j: int| 0 <= j < k ==> is_lead_char(#[trigger] trim(line)[j]),
        !is_lead_char(trim(line)[k]),
        forall|j: int| k <= j < k + m ==> #[trigger] trim(line)[j] != '|' && trim(line)[j] != ' ',
        k + m == trim(line).len() || trim(line)[k + m] == '|' || trim(line)[k + m] == ' ',
        exists|j: int| 0 <= j < trim(line).len() && !is_rule_char(#[trigger] trim(line)[j]),
        !(contains(lowercase(trim(line)), "gateway"@) && contains(lowercase(trim(line)), "city"@)),
    ensures
        table_row_gateway(line) == Some(trim(line).subrange(k, k + m)),
{
    let t = trim(line);
    let j0 = choose|j: int| 0 <= j < t.len() && !is_rule_char(#[trigger] t[j]);
    assert(!(forall|i: int| 0 <= i < t.len() ==> is_rule_char(#[trigger] t[i]))) by {
        assert(!is_rule_char(t[j0]));
    }
    lemma_strip_lead_at(t, k);
    let r = t.skip(k);
    assert forall|j: int| 0 <= j < m implies r[j] != '|' && r[j] != ' ' by {
        assert(r[j] == t[k + j]);
    }
    if k + m < t.len() {
        assert(r[m] == t[k + m]);
    }
    lemma_cell_len_at(r, m);
    assert(r.take(m) =~= t.subrange(k, k + m));
}

/// The header line, which mentions both "gateway" and "city", gives no
/// gateway.
pub proof fn lemma_table_header_skipped(line: Seq<char>)
    requires
        contains(lowercase(trim(line)), "gateway"@),
        contains(lowercase(trim(line)), "city"@),
    ensures
        table_row_gateway(line) is None,
{
}

// ── Login state of a status snapshot ────────────────────────────────────────

/// The snapshot's login state is read from the whole status text, whatever
/// the connection state is.
pub proof fn lemma_snapshot_login_state(s: Seq<char>)
    ensures
        snapshot_of(s).3 == login_state(s),
{
}

/// A status text that reports a login, and does not say that the user is
/// not logged in or logged out, gives a snapshot that is logged in, in every
/// connection state.
pub proof fn lemma_login_line_logs_in(s: Seq<char>, i: int)
    requires
        0 <= i < lines(s).len(),
        key_mentions(lines(s)[i], "login"@),
        colon_value(lines(s)[i]) is Some,
        !contains(lowercase(s), "not logged in"@),
        !contains(lowercase(s), "logged out"@),
    ensures
        snapshot_of(s).3 == Some(true),
{
    assert(is_login_line(lines(s)[i]));
}

// ── Check mark on gateway labels ────────────────────────────────────────────

/// A gateway's label is its name, preceded by a check mark exactly when it
/// is the connected gateway, for private and shared gateways alike.
pub proof fn lemma_check_mark_on_connected(
    current: Option<Seq<char>>,
    id: Seq<char>,
    name: Seq<char>,
    is_private: bool,
)
    ensures
        gateway_label_text(current, (id, name, is_private)) == if current == Some(id) {
            "\u{2713} "@ + name
        } else {
            name
        },
        gateway_label_text(current, (id, name, true)) == gateway_label_text(
            current,
            (id, name, false),
        ),
{
    assert(check_prefix() == "\u{2713} "@);
}

// ── Lines shown in an action's notification ─────────────────────────────────

/// For output that is not blank, the body is the first eight lines of the
/// output (all of them when there are fewer), joined by line breaks, then
/// the status line.
pub proof fn lemma_action_details_first_eight(action: Seq<char>, output: Seq<char>, status: Seq<char>)
    requires
        trim(output).len() > 0,
    ensures
        lines(output).len() <= 8 ==> action_details(action, output, status) == join(
            lines(output),
            "\n"@,
        ) + "\nStatus: "@ + status,
        lines(output).len() > 8 ==> action_details(action, output, status) == join(
            lines(output).take(8),
            "\n"@,
        ) + "\nStatus: "@ + status,
{
}

/// Outputs that agree on their first eight lines give the same body: lines
/// after the eighth are never shown.
pub proof fn lemma_action_details_ignore_later_lines(
    action: Seq<char>,
    o1: Seq<char>,
    o2: Seq<char>,
    status: Seq<char>,
)
    requires
        trim(o1).len() > 0,
        trim(o2).len() > 0,
        lines(o1).len() >= 8,
        lines(o2).len() >= 8,
        lines(o1).take(8) == lines(o2).take(8),
    ensures
        action_details(action, o1, status) == action_details(action, o2, status),
{
    if lines(o1).len() == 8 {
        assert(lines(o1).take(8) =~= lines(o1));
    }
    if lines(o2).len() == 8 {
        assert(lines(o2).take(8) =~= lines(o2));
    }
}

} // verus!
