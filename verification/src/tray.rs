//! The tray's state and the decisions it takes: what it shows, how it reads
//! the client's replies, and what it notifies.
use vstd::prelude::*;
use vstd::string::StringExecFns;
use crate::cli::NordLayerCli;
use crate::parser::{
    GATEWAYS_TEMPLATE, classify, first_status_gateway, gateway_records, gateway_view, gateway_views, login_state,
    opt_view, parse_connection_status, parse_gateway_from_status, parse_gateway_records,
    parse_login_state, status_label, ConnectionStatus, Gateway,
};
use crate::text::{
    chars_of, join, line_spans, lines, span_texts, spans_within, string_views, trim, trim_span,
};

verus! {

// ── Notification texts ──────────────────────────────────────────────────────

/// The summary line of a notification about `action`.
pub open spec fn notification_summary(action: Seq<char>, status: Seq<char>, is_error: bool) -> Seq<
    char,
> {
    if is_error {
        "NordLayer: "@ + action + " failed ("@ + status + ")"@
    } else {
        "NordLayer: "@ + action + " ("@ + status + ")"@
    }
}

/// Summary line for a notification; it names the action and the status, so
/// that shells which hide the body still show both.
pub fn format_notification_summary(action: &str, status: &str, is_error: bool) -> (r: String)
    ensures
        r@ == notification_summary(action@, status@, is_error),
{
    let mut s = "NordLayer: ".to_owned();
    s.append(action);
    if is_error {
        s.append(" failed (");
    } else {
        s.append(" (");
    }
    s.append(status);
    s.append(")");
    s
}

/// The greatest number of output lines a notification body shows.
pub open spec fn max_detail_lines() -> nat {
    8
}

/// The first `n` of the lines `ls` (all of them when there are fewer).
pub open spec fn first_lines(ls: Seq<Seq<char>>, n: nat) -> Seq<Seq<char>> {
    if ls.len() <= n {
        ls
    } else {
        ls.take(n as int)
    }
}

/// The body of a notification about a successful action: the first lines
/// of the client's output (or "<action> completed" when it printed
/// nothing), then the status.
pub open spec fn action_details(action: Seq<char>, output: Seq<char>, status: Seq<char>) -> Seq<
    char,
> {
    (if trim(output).len() == 0 {
        action + " completed"@
    } else {
        join(first_lines(lines(output), max_detail_lines()), "\n"@)
    }) + "\nStatus: "@ + status
}

/// Body text for a notification about a finished action.
pub fn format_action_details(action: &str, cli_output: &str, status: &str) -> (r: String)
    ensures
        r@ == action_details(action@, cli_output@, status@),
{
    let v = chars_of(cli_output);
    let n = v.len();
    let (a, b) = trim_span(&v, 0, n);
    assert(v@.subrange(0, n as int) =~= v@);
    let mut s: String;
    if a == b {
        s = action.to_owned();
        s.append(" completed");
    } else {
        let spans = line_spans(&v);
        let ghost texts = span_texts(v@, spans@);
        let count = if spans.len() <= 8 {
            spans.len()
        } else {
            8
        };
        let ghost shown = first_lines(texts, max_detail_lines());
        assert(shown =~= texts.take(count as int));
        s = String::new();
        let mut k: usize = 0;
        assert(texts.take(0) =~= Seq::<Seq<char>>::empty());
        while k < count
            invariant
                v@ == cli_output@,
                spans_within(spans@, v.len() as int),
                texts == span_texts(v@, spans@),
                count <= spans.len(),
                k <= count,
                s@ == join(texts.take(k as int), "\n"@),
            decreases count - k,
        {
            let (c, d) = spans[k];
            assert(spans@[k as int].0 <= spans@[k as int].1 <= v.len());
            if k > 0 {
                s.append("\n");
            }
            s.append(cli_output.substring_char(c, d));
            assert(texts.take(k + 1).drop_last() =~= texts.take(k as int));
            assert(texts.take(k + 1).last() == v@.subrange(c as int, d as int));
            if k == 0 {
                assert(join(texts.take(1), "\n"@) == texts.take(1)[0]);
            }
            assert(s@ =~= join(texts.take(k + 1), "\n"@));
            k = k + 1;
        }
    }
    s.append("\nStatus: ");
    s.append(status);
    s
}

/// The body a notification shows: the details, or a placeholder when they
/// are blank.
pub open spec fn notice_body(details: Seq<char>) -> Seq<char> {
    if trim(details).len() == 0 {
        "No details available"@
    } else {
        details
    }
}

/// A desktop notification to show.
pub struct Notice {
    pub summary: String,
    pub body: String,
}

/// The text to show for `details` in a notification body.
pub fn notice_body_text(details: &str) -> (r: String)
    ensures
        r@ == notice_body(details@),
{
    let v = chars_of(details);
    let n = v.len();
    let (a, b) = trim_span(&v, 0, n);
    assert(v@.subrange(0, n as int) =~= v@);
    if a == b {
        "No details available".to_owned()
    } else {
        details.to_owned()
    }
}

// ── Status snapshots ────────────────────────────────────────────────────────

/// The status fields of the tray as plain values: connection state, status
/// line, connected gateway and login state.
pub type StatusView = (ConnectionStatus, Seq<char>, Option<Seq<char>>, Option<bool>);

/// The status that plain-text `nordlayer status` output describes.
pub open spec fn snapshot_of(s: Seq<char>) -> StatusView {
    let status = classify(s);
    if status == ConnectionStatus::Connected {
        match first_status_gateway(lines(s)) {
            Some(g) => (status, "connected: "@ + g, Some(g), login_state(s)),
            None => (status, "connected"@, None, login_state(s)),
        }
    } else {
        (status, status_label(status), None, login_state(s))
    }
}

/// The status when the client could not be asked.
pub open spec fn unknown_status() -> StatusView {
    (ConnectionStatus::Unknown, "unknown"@, None, None)
}

/// The status before the client has been asked.
pub open spec fn idle_status() -> StatusView {
    (ConnectionStatus::Unknown, "idle"@, None, None)
}

/// The status line agrees with the connection state: a gateway is shown
/// only while connected, and then the line names it; otherwise the line is
/// the state's label (or "idle" before the first query).
pub open spec fn status_line_agrees(v: StatusView) -> bool {
    match v.2 {
        Some(g) => v.0 == ConnectionStatus::Connected && v.1 == "connected: "@ + g,
        None => v.1 == status_label(v.0) || v == idle_status(),
    }
}

/// One reading of the client's status.
pub struct StatusSnapshot {
    pub connection_status: ConnectionStatus,
    pub last_status: String,
    pub current_gateway: Option<String>,
    pub is_logged_in: Option<bool>,
}

impl StatusSnapshot {
    /// The snapshot as plain values.
    pub open spec fn view_status(&self) -> StatusView {
        (self.connection_status, self.last_status@, opt_view(self.current_gateway), self.is_logged_in)
    }

    /// The snapshot that plain-text `nordlayer status` output describes.
    pub fn from_status_output(output: &str) -> (r: Self)
        ensures
            r.view_status() == snapshot_of(output@),
    {
        let is_logged_in = parse_login_state(output);
        let connection_status = parse_connection_status(output);
        let (last_status, current_gateway) = match connection_status {
            ConnectionStatus::Connected => match parse_gateway_from_status(output) {
                Some(gateway) => {
                    let mut line = "connected: ".to_owned();
                    line.append(gateway.as_str());
                    (line, Some(gateway))
                },
                None => ("connected".to_owned(), None),
            },
            _ => (connection_status.label().to_owned(), None),
        };
        StatusSnapshot { connection_status, last_status, current_gateway, is_logged_in }
    }

    /// The snapshot when the client could not be asked.
    pub fn unknown() -> (r: Self)
        ensures
            r.view_status() == unknown_status(),
    {
        StatusSnapshot {
            connection_status: ConnectionStatus::Unknown,
            last_status: "unknown".to_owned(),
            current_gateway: None,
            is_logged_in: None,
        }
    }
}

// ── Menu model ──────────────────────────────────────────────────────────────

/// What activating a menu entry does.
#[derive(Debug, Clone, PartialEq, Eq)]
pub enum MenuAction {
    /// Run the client with `args`, read the status again, then notify the
    /// result of `action`.
    Run { action: String, args: Vec<String> },
    /// Read the status again.
    RefreshStatus,
    /// Read the gateways again, then the status.
    RefreshGateways,
    /// Leave the program.
    Quit,
}

/// A menu action as plain values.
pub enum ActionView {
    Run(Seq<char>, Seq<Seq<char>>),
    RefreshStatus,
    RefreshGateways,
    Quit,
}

/// The plain values of a menu action.
pub open spec fn action_view(a: MenuAction) -> ActionView {
    match a {
        MenuAction::Run { action, args } => ActionView::Run(action@, string_views(args@)),
        MenuAction::RefreshStatus => ActionView::RefreshStatus,
        MenuAction::RefreshGateways => ActionView::RefreshGateways,
        MenuAction::Quit => ActionView::Quit,
    }
}

/// The plain values of an optional menu action.
pub open spec fn opt_action_view(a: Option<MenuAction>) -> Option<ActionView> {
    match a {
        Some(a) => Some(action_view(a)),
        None => None,
    }
}

/// A menu entry that can be activated: its label, whether it is enabled and
/// what it does.
#[derive(Debug, Clone, PartialEq, Eq)]
pub struct ActionItem {
    pub label: String,
    pub enabled: bool,
    pub action: Option<MenuAction>,
}

/// An entry as plain values: label, enabled, action.
pub type ItemView = (Seq<char>, bool, Option<ActionView>);

/// The plain values of an entry.
pub open spec fn item_view(i: ActionItem) -> ItemView {
    (i.label@, i.enabled, opt_action_view(i.action))
}

/// The plain values of a list of entries.
pub open spec fn item_views(items: Seq<ActionItem>) -> Seq<ItemView> {
    items.map_values(|i: ActionItem| item_view(i))
}

/// An entry of the tray menu: an item, or a submenu with its label and items.
#[derive(Debug, Clone, PartialEq, Eq)]
pub enum MenuEntry {
    Item(ActionItem),
    Submenu(String, Vec<ActionItem>),
}

/// A menu entry as plain values.
pub enum EntryView {
    Item(ItemView),
    Submenu(Seq<char>, Seq<ItemView>),
}

/// The plain values of a menu entry.
pub open spec fn entry_view(e: MenuEntry) -> EntryView {
    match e {
        MenuEntry::Item(i) => EntryView::Item(item_view(i)),
        MenuEntry::Submenu(label, items) => EntryView::Submenu(label@, item_views(items@)),
    }
}

/// The plain values of a menu.
pub open spec fn entry_views(es: Seq<MenuEntry>) -> Seq<EntryView> {
    es.map_values(|e: MenuEntry| entry_view(e))
}

/// Running the client with `args` for the action named `name`.
pub open spec fn run_action_view(name: Seq<char>, args: Seq<Seq<char>>) -> Option<ActionView> {
    Some(ActionView::Run(name, args))
}

/// The check mark shown before the connected gateway.
pub open spec fn check_prefix() -> Seq<char> {
    "\u{2713} "@
}

/// The label of a gateway: its name, marked when it is the connected one.
pub open spec fn gateway_label_text(current: Option<Seq<char>>, g: (Seq<char>, Seq<char>, bool)) -> Seq<
    char,
> {
    if current == Some(g.0) {
        check_prefix() + g.1
    } else {
        g.1
    }
}

/// The entry of a gateway: its label, enabled, connecting to it.
pub open spec fn gateway_entry(current: Option<Seq<char>>, g: (Seq<char>, Seq<char>, bool)) -> ItemView {
    (gateway_label_text(current, g), true, run_action_view("connect"@, seq!["connect"@, g.0]))
}

/// The entries of a submenu listing `gs`, or a disabled placeholder without
/// action when it is empty.
pub open spec fn gateway_entries(
    current: Option<Seq<char>>,
    gs: Seq<(Seq<char>, Seq<char>, bool)>,
    empty_label: Seq<char>,
) -> Seq<ItemView> {
    if gs.len() == 0 {
        seq![(empty_label, false, None)]
    } else {
        gs.map_values(|g: (Seq<char>, Seq<char>, bool)| gateway_entry(current, g))
    }
}

/// The gateways of `gs` that are private (or shared), in order.
pub open spec fn of_kind(gs: Seq<(Seq<char>, Seq<char>, bool)>, private: bool) -> Seq<
    (Seq<char>, Seq<char>, bool),
>
    decreases gs.len(),
{
    if gs.len() == 0 {
        seq![]
    } else {
        of_kind(gs.drop_last(), private) + if gs.last().2 == private {
            seq![gs.last()]
        } else {
            seq![]
        }
    }
}

/// An enabled item with an action.
pub open spec fn action_entry(label: Seq<char>, action: ActionView) -> EntryView {
    EntryView::Item((label, true, Some(action)))
}

/// The login entry: a disabled "Logged in" when the client is known to be
/// logged in, else "Login", which runs the client's `login`.
pub open spec fn login_entry(is_logged_in: Option<bool>) -> EntryView {
    if is_logged_in == Some(true) {
        EntryView::Item(("Logged in"@, false, None))
    } else {
        EntryView::Item(("Login"@, true, run_action_view("login"@, seq!["login"@])))
    }
}

/// The tray menu, in order: the status line (disabled), the private and
/// shared gateway submenus, Disconnect, the login entry, Refresh Status,
/// Refresh Gateways and Quit.
pub open spec fn menu_entries(
    last_status: Seq<char>,
    current: Option<Seq<char>>,
    gs: Seq<(Seq<char>, Seq<char>, bool)>,
    is_logged_in: Option<bool>,
) -> Seq<EntryView> {
    seq![
        EntryView::Item(("Status: "@ + last_status, false, None)),
        EntryView::Submenu(
            "Private Gateways"@,
            gateway_entries(current, of_kind(gs, true), "No private gateways"@),
        ),
        EntryView::Submenu(
            "Shared Gateways"@,
            gateway_entries(current, of_kind(gs, false), "No shared gateways"@),
        ),
        action_entry("Disconnect"@, ActionView::Run("disconnect"@, seq!["disconnect"@])),
        login_entry(is_logged_in),
        action_entry("Refresh Status"@, ActionView::RefreshStatus),
        action_entry("Refresh Gateways"@, ActionView::RefreshGateways),
        action_entry("Quit"@, ActionView::Quit),
    ]
}

// ── What actions do ─────────────────────────────────────────────────────────

/// One step of carrying out an action. The program performs the steps in
/// order:
/// - `RunClient(args)`: run the client with `args` and keep its outcome;
/// - `ReadStatus`: run the client with `status_query_args()` and hand the
///   reply to `NordLayerTray::apply_status_reply`;
/// - `ReadGateways`: run the client with `gateways_query_args()`, hand the
///   reply to `NordLayerTray::apply_gateways_reply` and show the notice it
///   returns, if any;
/// - `NotifyActionResult(action)`: show `NordLayerTray::action_notice` for
///   `action` and the kept outcome;
/// - `Exit`: leave the program.
#[derive(Debug, Clone, PartialEq, Eq)]
pub enum Step {
    RunClient(Vec<String>),
    ReadStatus,
    ReadGateways,
    NotifyActionResult(String),
    Exit,
}

/// A step as plain values.
pub enum StepView {
    RunClient(Seq<Seq<char>>),
    ReadStatus,
    ReadGateways,
    NotifyActionResult(Seq<char>),
    Exit,
}

/// The plain values of a step.
pub open spec fn step_view(s: Step) -> StepView {
    match s {
        Step::RunClient(args) => StepView::RunClient(string_views(args@)),
        Step::ReadStatus => StepView::ReadStatus,
        Step::ReadGateways => StepView::ReadGateways,
        Step::NotifyActionResult(a) => StepView::NotifyActionResult(a@),
        Step::Exit => StepView::Exit,
    }
}

/// The plain values of a list of steps.
pub open spec fn step_views(ss: Seq<Step>) -> Seq<StepView> {
    ss.map_values(|s: Step| step_view(s))
}

/// The steps of an action: running the client is followed by reading the
/// status and then notifying the result; refreshing the gateways reads the
/// gateways and then the status.
pub open spec fn action_steps_of(a: ActionView) -> Seq<StepView> {
    match a {
        ActionView::Run(name, args) => seq![
            StepView::RunClient(args),
            StepView::ReadStatus,
            StepView::NotifyActionResult(name),
        ],
        ActionView::RefreshStatus => seq![StepView::ReadStatus],
        ActionView::RefreshGateways => seq![StepView::ReadGateways, StepView::ReadStatus],
        ActionView::Quit => seq![StepView::Exit],
    }
}

/// The steps when the tray starts: read the status, then the gateways.
pub open spec fn startup_steps_of() -> Seq<StepView> {
    seq![StepView::ReadStatus, StepView::ReadGateways]
}

/// A copy of a list of strings.
fn copy_strings(v: &Vec<String>) -> (r: Vec<String>)
    ensures
        string_views(r@) == string_views(v@),
{
    let mut r: Vec<String> = Vec::new();
    let mut i: usize = 0;
    while i < v.len()
        invariant
            i <= v.len(),
            string_views(r@) == string_views(v@).take(i as int),
        decreases v.len() - i,
    {
        let ghost old_r = r@;
        r.push(v[i].clone());
        assert(string_views(r@) =~= string_views(old_r) + seq![v@[i as int]@]);
        assert(string_views(v@).take(i + 1) =~= string_views(v@).take(i as int) + seq![v@[i as int]@]);
        i = i + 1;
    }
    assert(string_views(v@).take(v.len() as int) =~= string_views(v@));
    r
}

/// The steps that carry out a menu action.
pub fn action_steps(action: &MenuAction) -> (r: Vec<Step>)
    ensures
        step_views(r@) == action_steps_of(action_view(*action)),
{
    let mut r: Vec<Step> = Vec::new();
    match action {
        MenuAction::Run { action, args } => {
            r.push(Step::RunClient(copy_strings(args)));
            r.push(Step::ReadStatus);
            r.push(Step::NotifyActionResult(action.clone()));
        },
        MenuAction::RefreshStatus => {
            r.push(Step::ReadStatus);
        },
        MenuAction::RefreshGateways => {
            r.push(Step::ReadGateways);
            r.push(Step::ReadStatus);
        },
        MenuAction::Quit => {
            r.push(Step::Exit);
        },
    }
    assert(step_views(r@) =~= action_steps_of(action_view(*action)));
    r
}

/// The steps when the tray starts.
pub fn startup_steps() -> (r: Vec<Step>)
    ensures
        step_views(r@) == startup_steps_of(),
{
    let mut r: Vec<Step> = Vec::new();
    r.push(Step::ReadStatus);
    r.push(Step::ReadGateways);
    assert(step_views(r@) =~= startup_steps_of());
    r
}

/// The client arguments that query the status: `status`.
pub fn status_query_args() -> (r: Vec<String>)
    ensures
        string_views(r@) == seq!["status"@],
{
    let mut r: Vec<String> = Vec::new();
    r.push("status".to_owned());
    assert(string_views(r@) =~= seq!["status"@]);
    r
}

/// The client arguments that list the gateways as records:
/// `gateways -f GATEWAYS_TEMPLATE`.
pub fn gateways_query_args() -> (r: Vec<String>)
    ensures
        string_views(r@) == seq!["gateways"@, "-f"@, GATEWAYS_TEMPLATE@],
{
    let mut r: Vec<String> = Vec::new();
    r.push("gateways".to_owned());
    r.push("-f".to_owned());
    r.push(GATEWAYS_TEMPLATE.to_owned());
    assert(string_views(r@) =~= seq!["gateways"@, "-f"@, GATEWAYS_TEMPLATE@]);
    r
}

/// The colour of the tray icon for a connection state.
pub open spec fn status_rgb(s: ConnectionStatus) -> (u8, u8, u8) {
    match s {
        ConnectionStatus::Connected => (76, 175, 80),
        ConnectionStatus::Connecting => (255, 152, 0),
        ConnectionStatus::Reconnecting => (255, 152, 0),
        ConnectionStatus::Disconnected => (229, 57, 53),
        ConnectionStatus::NotLoggedIn => (255, 193, 7),
        ConnectionStatus::Unknown => (158, 158, 158),
    }
}

/// The icon colour for a connection state: green when connected, orange
/// while connecting, red when disconnected, amber when not logged in and
/// grey when unknown.
pub fn status_color(status: ConnectionStatus) -> (r: (u8, u8, u8))
    ensures
        r == status_rgb(status),
{
    match status {
        ConnectionStatus::Connected => (76, 175, 80),
        ConnectionStatus::Connecting | ConnectionStatus::Reconnecting => (255, 152, 0),
        ConnectionStatus::Disconnected => (229, 57, 53),
        ConnectionStatus::NotLoggedIn => (255, 193, 7),
        ConnectionStatus::Unknown => (158, 158, 158),
    }
}

// ── The tray ────────────────────────────────────────────────────────────────

/// The tray's state: the client it runs, the last status it read and the
/// gateways it lists.
pub struct NordLayerTray {
    pub cli: NordLayerCli,
    pub last_status: String,
    pub connection_status: ConnectionStatus,
    pub gateways: Vec<Gateway>,
    pub current_gateway: Option<String>,
    pub is_logged_in: Option<bool>,
}

impl NordLayerTray {
    /// The status fields as plain values.
    pub open spec fn view_status(&self) -> StatusView {
        (self.connection_status, self.last_status@, opt_view(self.current_gateway), self.is_logged_in)
    }

    /// A tray for `cli` that has not asked the client anything yet.
    pub fn new(cli: NordLayerCli) -> (r: Self)
        ensures
            r.cli == cli,
            r.view_status() == idle_status(),
            r.gateways@.len() == 0,
            status_line_agrees(r.view_status()),
    {
        NordLayerTray {
            cli,
            last_status: "idle".to_owned(),
            connection_status: ConnectionStatus::Unknown,
            gateways: Vec::new(),
            current_gateway: None,
            is_logged_in: None,
        }
    }

    /// Take over the status of a snapshot.
    pub fn apply_snapshot(&mut self, snapshot: StatusSnapshot)
        ensures
            final(self).view_status() == snapshot.view_status(),
            final(self).gateways == old(self).gateways,
            final(self).cli == old(self).cli,
    {
        self.connection_status = snapshot.connection_status;
        self.last_status = snapshot.last_status;
        self.current_gateway = snapshot.current_gateway;
        self.is_logged_in = snapshot.is_logged_in;
    }

    /// Take in the reply to `nordlayer status`: the status it describes, or
    /// the unknown status when the command failed.
    pub fn apply_status_reply(&mut self, reply: &Result<String, String>)
        ensures
            final(self).view_status() == match reply {
                Ok(output) => snapshot_of(output@),
                Err(_) => unknown_status(),
            },
            status_line_agrees(final(self).view_status()),
            final(self).gateways == old(self).gateways,
            final(self).cli == old(self).cli,
    {
        match reply {
            Ok(output) => {
                let snapshot = StatusSnapshot::from_status_output(output.as_str());
                proof {
                    crate::laws::lemma_snapshot_status_line_agrees(output@);
                }
                self.apply_snapshot(snapshot);
            },
            Err(_) => {
                self.apply_snapshot(StatusSnapshot::unknown());
            },
        }
    }

    /// The notification about `action`: the status in the summary, the
    /// details (or a placeholder) in the body.
    pub fn notify_action_result(&self, action: &str, details: &str, is_error: bool) -> (r: Notice)
        ensures
            r.summary@ == notification_summary(action@, self.last_status@, is_error),
            r.body@ == notice_body(details@),
    {
        Notice {
            summary: format_notification_summary(action, self.last_status.as_str(), is_error),
            body: notice_body_text(details),
        }
    }

    /// Take in the reply to `nordlayer gateways -f GATEWAYS_TEMPLATE`: the
    /// gateways it lists; when the command failed, no gateways and a
    /// notification of the error.
    pub fn apply_gateways_reply(&mut self, reply: Result<String, String>) -> (r: Option<Notice>)
        ensures
            final(self).view_status() == old(self).view_status(),
            final(self).cli == old(self).cli,
            match reply {
                Ok(output) => gateway_views(final(self).gateways@) == gateway_records(output@)
                    && r is None,
                Err(e) => final(self).gateways@.len() == 0 && (r matches Some(n) && n.summary@
                    == notification_summary("refresh gateways"@, old(self).last_status@, true)
                    && n.body@ == notice_body(e@)),
            },
    {
        match reply {
            Ok(output) => {
                self.gateways = parse_gateway_records(output.as_str());
                None
            },
            Err(e) => {
                let n = self.notify_action_result("refresh gateways", e.as_str(), true);
                self.gateways = Vec::new();
                Some(n)
            },
        }
    }

    /// The notification after running `action`, once the status has been
    /// read again: the output and status when it succeeded, the error and
    /// status when it failed.
    pub fn action_notice(&self, action: &str, outcome: &Result<String, String>) -> (r: Notice)
        ensures
            match outcome {
                Ok(output) => r.summary@ == notification_summary(action@, self.last_status@, false)
                    && r.body@ == notice_body(
                    action_details(action@, output@, self.last_status@),
                ),
                Err(e) => r.summary@ == notification_summary(action@, self.last_status@, true)
                    && r.body@ == notice_body(
                    action@ + " failed: "@ + e@ + "\nStatus: "@ + self.last_status@,
                ),
            },
    {
        match outcome {
            Ok(output) => {
                let body = format_action_details(action, output.as_str(), self.last_status.as_str());
                self.notify_action_result(action, body.as_str(), false)
            },
            Err(e) => {
                let mut body = action.to_owned();
                body.append(" failed: ");
                body.append(e.as_str());
                body.append("\nStatus: ");
                body.append(self.last_status.as_str());
                self.notify_action_result(action, body.as_str(), true)
            },
        }
    }

    /// The menu label of a gateway: a check mark before the connected one.
    pub fn gateway_label(&self, gateway: &Gateway) -> (r: String)
        ensures
            r@ == gateway_label_text(opt_view(self.current_gateway), gateway_view(*gateway)),
    {
        let is_current = match &self.current_gateway {
            Some(id) => id.eq(&gateway.id),
            None => false,
        };
        if is_current {
            let mut label = "\u{2713} ".to_owned();
            label.append(gateway.name.as_str());
            label
        } else {
            gateway.name.as_str().to_owned()
        }
    }

    /// The entries of a submenu listing the gateways of one kind, or a
    /// disabled placeholder labelled `empty_label` when there are none.
    pub fn build_gateway_items(&self, private: bool, empty_label: &str) -> (r: Vec<ActionItem>)
        ensures
            item_views(r@) == gateway_entries(
                opt_view(self.current_gateway),
                of_kind(gateway_views(self.gateways@), private),
                empty_label@,
            ),
    {
        let ghost current = opt_view(self.current_gateway);
        let ghost all = gateway_views(self.gateways@);
        let mut items: Vec<ActionItem> = Vec::new();
        let mut i: usize = 0;
        assert(all.take(0) =~= Seq::<(Seq<char>, Seq<char>, bool)>::empty());
        while i < self.gateways.len()
            invariant
                i <= self.gateways.len(),
                all == gateway_views(self.gateways@),
                current == opt_view(self.current_gateway),
                item_views(items@) == of_kind(all.take(i as int), private).map_values(
                    |g: (Seq<char>, Seq<char>, bool)| gateway_entry(current, g),
                ),
            decreases self.gateways.len() - i,
        {
            let g = &self.gateways[i];
            assert(all.take(i + 1).drop_last() =~= all.take(i as int));
            assert(all.take(i + 1).last() == gateway_view(*g));
            let ghost before = of_kind(all.take(i as int), private);
            if g.is_private == private {
                let ghost old_items = items@;
                let mut args: Vec<String> = Vec::new();
                args.push("connect".to_owned());
                args.push(g.id.as_str().to_owned());
                assert(string_views(args@) =~= seq!["connect"@, g.id@]);
                let item = ActionItem {
                    label: self.gateway_label(g),
                    enabled: true,
                    action: Some(MenuAction::Run { action: "connect".to_owned(), args }),
                };
                items.push(item);
                assert(of_kind(all.take(i + 1), private) =~= before + seq![gateway_view(*g)]);
                assert(item_views(items@) =~= item_views(old_items) + seq![item_view(item)]);
            } else {
                assert(of_kind(all.take(i + 1), private) =~= before + seq![]);
            }
            i = i + 1;
        }
        assert(all.take(self.gateways.len() as int) =~= all);
        if items.len() == 0 {
            let item = ActionItem { label: empty_label.to_owned(), enabled: false, action: None };
            items.push(item);
            assert(item_views(items@) =~= seq![(empty_label@, false, None::<ActionView>)]);
        }
        items
    }

    /// The tray menu: the status line, the private and shared gateway
    /// submenus, Disconnect, Login (or a disabled "Logged in"), Refresh
    /// Status, Refresh Gateways and Quit, each with what it does.
    pub fn menu(&self) -> (r: Vec<MenuEntry>)
        ensures
            entry_views(r@) == menu_entries(
                self.last_status@,
                opt_view(self.current_gateway),
                gateway_views(self.gateways@),
                self.is_logged_in,
            ),
    {
        let mut entries: Vec<MenuEntry> = Vec::new();
        let mut status_label = "Status: ".to_owned();
        status_label.append(self.last_status.as_str());
        entries.push(MenuEntry::Item(ActionItem { label: status_label, enabled: false, action: None }));
        entries.push(
            MenuEntry::Submenu(
                "Private Gateways".to_owned(),
                self.build_gateway_items(true, "No private gateways"),
            ),
        );
        entries.push(
            MenuEntry::Submenu(
                "Shared Gateways".to_owned(),
                self.build_gateway_items(false, "No shared gateways"),
            ),
        );
        entries.push(MenuEntry::Item(run_item("Disconnect", "disconnect")));
        let logged_in = match self.is_logged_in {
            Some(b) => b,
            None => false,
        };
        if logged_in {
            entries.push(
                MenuEntry::Item(ActionItem { label: "Logged in".to_owned(), enabled: false, action: None }),
            );
        } else {
            entries.push(MenuEntry::Item(run_item("Login", "login")));
        }
        entries.push(
            MenuEntry::Item(
                ActionItem {
                    label: "Refresh Status".to_owned(),
                    enabled: true,
                    action: Some(MenuAction::RefreshStatus),
                },
            ),
        );
        entries.push(
            MenuEntry::Item(
                ActionItem {
                    label: "Refresh Gateways".to_owned(),
                    enabled: true,
                    action: Some(MenuAction::RefreshGateways),
                },
            ),
        );
        entries.push(
            MenuEntry::Item(
                ActionItem { label: "Quit".to_owned(), enabled: true, action: Some(MenuAction::Quit) },
            ),
        );
        assert(entry_views(entries@) =~= menu_entries(
            self.last_status@,
            opt_view(self.current_gateway),
            gateway_views(self.gateways@),
            self.is_logged_in,
        ));
        entries
    }
}

/// An enabled item labelled `label` that runs the client command `command`
/// (with no further arguments) as the action of that name.
fn run_item(label: &str, command: &str) -> (r: ActionItem)
    ensures
        item_view(r) == (label@, true, run_action_view(command@, seq![command@])),
{
    let mut args: Vec<String> = Vec::new();
    args.push(command.to_owned());
    assert(string_views(args@) =~= seq![command@]);
    ActionItem {
        label: label.to_owned(),
        enabled: true,
        action: Some(MenuAction::Run { action: command.to_owned(), args }),
    }
}

} // verus!
