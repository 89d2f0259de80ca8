//! The interactive dashboard: its state machine (selection, active pane,
//! operation log, quit flag) and the text of every pane, derived from the
//! state and the latest reachability snapshot. Drawing is the caller's.

use vstd::prelude::*;
use crate::errors::NodError;
use crate::host::{role_text, HostEntity};
use crate::text::{decimal, decimal_string, joined, views};

verus! {

/// The active pane rendered in the dashboard body.
#[derive(Debug, Clone, Copy, PartialEq, Eq, Structural)]
pub enum Tab {
    /// Host reachability matrix table.
    Matrix,
    /// Detail view for the selected host.
    Details,
    /// Operation log / event stream.
    Logs,
}

/// Normalized key events the model understands.
#[derive(Debug, Clone, Copy, PartialEq, Eq, Structural)]
pub enum DashboardKey {
    /// Up / `k`.
    Up,
    /// Down / `j`.
    Down,
    /// `Tab`: switch the active pane.
    Tab,
    /// `q`: request a clean quit.
    Quit,
    /// `s`: trigger a switch intent.
    Switch,
    /// `r`: trigger a rollback intent.
    Rollback,
    /// `d`: trigger a diff intent.
    Diff,
}

/// Operations the dashboard hands off to the command layer.
#[derive(Debug, Clone, Copy, PartialEq, Eq, Structural)]
pub enum DashboardAction {
    Switch,
    Rollback,
    Diff,
}

/// Stateful dashboard model; mutates only via the provided handlers.
#[derive(Debug)]
pub struct DashboardApp {
    /// Fleet loaded from host discovery.
    pub hosts: Vec<HostEntity>,
    /// Row currently highlighted in the host matrix.
    pub selected_index: usize,
    /// Active pane.
    pub active_tab: Tab,
    /// Log entries, newest last.
    pub logs: Vec<String>,
    /// Transient operator-facing status line.
    pub status_message: Option<String>,
    /// Requests the event loop to terminate after this frame.
    pub should_quit: bool,
}

/// The pane after `t` in the cycle Matrix → Details → Logs → Matrix.
pub open spec fn next_tab(t: Tab) -> Tab {
    match t {
        Tab::Matrix => Tab::Details,
        Tab::Details => Tab::Logs,
        Tab::Logs => Tab::Matrix,
    }
}

/// The selection after `i` among `n` hosts, wrapping to the first.
pub open spec fn next_index(i: usize, n: nat) -> usize {
    if n == 0 {
        i
    } else if i + 1 < n {
        (i + 1) as usize
    } else {
        0
    }
}

/// The selection before `i` among `n` hosts, wrapping to the last.
pub open spec fn previous_index(i: usize, n: nat) -> usize {
    if n == 0 {
        i
    } else if i == 0 {
        (n - 1) as usize
    } else {
        (i - 1) as usize
    }
}

/// The status line an action key leaves: `<verb> queued for <host>`, with
/// `?` for an empty fleet.
pub open spec fn queued_text(verb: Seq<char>, app: DashboardApp) -> Seq<char> {
    verb + " queued for "@ + if app.hosts@.len() == 0 {
        "?"@
    } else {
        app.hosts@[app.selected_index as int].name@
    }
}

impl DashboardApp {
    /// The selection is on a host, unless the fleet is empty.
    pub open spec fn wf(self) -> bool {
        self.hosts@.len() == 0 || self.selected_index < self.hosts@.len()
    }

    /// Builds a dashboard over `hosts` with the first host selected, the
    /// matrix shown, an empty log and no status.
    pub fn new(hosts: Vec<HostEntity>) -> (app: DashboardApp)
        ensures
            app.wf(),
            app.hosts@ == hosts@,
            app.selected_index == 0,
            app.active_tab == Tab::Matrix,
            app.logs@.len() == 0,
            app.status_message is None,
            !app.should_quit,
    {
        DashboardApp {
            hosts,
            selected_index: 0,
            active_tab: Tab::Matrix,
            logs: Vec::new(),
            status_message: None,
            should_quit: false,
        }
    }

    /// Returns the currently selected host, or `None` on an empty fleet.
    pub fn selected_host(&self) -> (r: Option<&HostEntity>)
        requires
            self.wf(),
        ensures
            r is None <==> self.hosts@.len() == 0,
            r matches Some(h) ==> *h == self.hosts@[self.selected_index as int],
    {
        if self.hosts.len() == 0 {
            None
        } else {
            Some(&self.hosts[self.selected_index])
        }
    }

    /// Advances the selection, wrapping from the last host to the first.
    pub fn next_host(&mut self)
        ensures
            final(self).wf(),
            final(self).selected_index == next_index(old(self).selected_index, old(self).hosts@.len()),
            final(self).hosts == old(self).hosts,
            final(self).active_tab == old(self).active_tab,
            final(self).logs == old(self).logs,
            final(self).status_message == old(self).status_message,
            final(self).should_quit == old(self).should_quit,
    {
        if self.hosts.len() == 0 {
            return;
        }
        if self.selected_index < self.hosts.len() - 1 {
            self.selected_index = self.selected_index + 1;
        } else {
            self.selected_index = 0;
        }
    }

    /// Moves the selection backwards, wrapping from the first to the last host.
    pub fn previous_host(&mut self)
        ensures
            old(self).wf() ==> final(self).wf(),
            final(self).selected_index == previous_index(old(self).selected_index, old(self).hosts@.len()),
            final(self).hosts == old(self).hosts,
            final(self).active_tab == old(self).active_tab,
            final(self).logs == old(self).logs,
            final(self).status_message == old(self).status_message,
            final(self).should_quit == old(self).should_quit,
    {
        if self.hosts.len() == 0 {
            return;
        }
        if self.selected_index == 0 {
            self.selected_index = self.hosts.len() - 1;
        } else {
            self.selected_index = self.selected_index - 1;
        }
    }

    /// Cycles the active pane Matrix → Details → Logs → Matrix.
    pub fn toggle_tab(&mut self)
        ensures
            final(self).active_tab == next_tab(old(self).active_tab),
            final(self).hosts == old(self).hosts,
            final(self).selected_index == old(self).selected_index,
            final(self).logs == old(self).logs,
            final(self).status_message == old(self).status_message,
            final(self).should_quit == old(self).should_quit,
    {
        self.active_tab = match self.active_tab {
            Tab::Matrix => Tab::Details,
            Tab::Details => Tab::Logs,
            Tab::Logs => Tab::Matrix,
        };
    }

    /// Appends an operation log entry.
    pub fn append_log(&mut self, entry: &str)
        ensures
            views(final(self).logs@) == views(old(self).logs@).push(entry@),
            final(self).hosts == old(self).hosts,
            final(self).selected_index == old(self).selected_index,
            final(self).active_tab == old(self).active_tab,
            final(self).status_message == old(self).status_message,
            final(self).should_quit == old(self).should_quit,
    {
        let ghost before = self.logs@;
        self.logs.push(entry.to_owned());
        proof {
            assert(views(self.logs@) =~= views(before).push(entry@));
        }
    }

    /// The status line of an action key.
    fn queue(&mut self, verb: &str)
        requires
            old(self).wf(),
        ensures
            final(self).status_message matches Some(m) && m@ == queued_text(verb@, *old(self)),
            final(self).hosts == old(self).hosts,
            final(self).selected_index == old(self).selected_index,
            final(self).active_tab == old(self).active_tab,
            final(self).logs == old(self).logs,
            final(self).should_quit == old(self).should_quit,
    {
        let mut m = verb.to_owned();
        m.append(" queued for ");
        match self.selected_host() {
            Some(h) => m.append(h.name.as_str()),
            None => m.append("?"),
        }
        self.status_message = Some(m);
    }

    /// Applies a normalized keypress: navigation and pane keys move the
    /// selection or the pane, quit sets the quit flag, and the three action
    /// keys note the selected host in the status line and return the
    /// operation intent for the event loop.
    pub fn handle_key(&mut self, key: DashboardKey) -> (r: Option<DashboardAction>)
        requires
            key == DashboardKey::Switch || key == DashboardKey::Rollback || key == DashboardKey::Diff ==> old(self).wf(),
        ensures
            old(self).wf() || key == DashboardKey::Down ==> final(self).wf(),
            final(self).hosts == old(self).hosts,
            final(self).logs == old(self).logs,
            final(self).selected_index == match key {
                DashboardKey::Down => next_index(old(self).selected_index, old(self).hosts@.len()),
                DashboardKey::Up => previous_index(old(self).selected_index, old(self).hosts@.len()),
                _ => old(self).selected_index,
            },
            final(self).active_tab == if key == DashboardKey::Tab {
                next_tab(old(self).active_tab)
            } else {
                old(self).active_tab
            },
            final(self).should_quit == (old(self).should_quit || key == DashboardKey::Quit),
            match key {
                DashboardKey::Switch => r == Some(DashboardAction::Switch) && (final(self).status_message matches Some(
                    m,
                ) && m@ == queued_text("switch"@, *old(self))),
                DashboardKey::Rollback => r == Some(DashboardAction::Rollback) && (final(self).status_message matches Some(
                    m,
                ) && m@ == queued_text("rollback"@, *old(self))),
                DashboardKey::Diff => r == Some(DashboardAction::Diff) && (final(self).status_message matches Some(m)
                    && m@ == queued_text("diff"@, *old(self))),
                _ => r is None && final(self).status_message == old(self).status_message,
            },
    {
        match key {
            DashboardKey::Down => {
                self.next_host();
                None
            },
            DashboardKey::Up => {
                self.previous_host();
                None
            },
            DashboardKey::Tab => {
                self.toggle_tab();
                None
            },
            DashboardKey::Quit => {
                self.should_quit = true;
                None
            },
            DashboardKey::Switch => {
                self.queue("switch");
                Some(DashboardAction::Switch)
            },
            DashboardKey::Rollback => {
                self.queue("rollback");
                Some(DashboardAction::Rollback)
            },
            DashboardKey::Diff => {
                self.queue("diff");
                Some(DashboardAction::Diff)
            },
        }
    }
}

/// Moving down then up (or up then down) returns to the same host.
pub proof fn lemma_navigation_round_trip(i: usize, n: nat)
    requires
        (n == 0 && i == 0) || i < n,
        n <= usize::MAX,
    ensures
        previous_index(next_index(i, n), n) == i,
        next_index(previous_index(i, n), n) == i,
{
}

/// Three pane switches bring back the pane one started from.
pub proof fn lemma_tab_cycle(t: Tab)
    ensures
        next_tab(next_tab(next_tab(t))) == t,
        next_tab(t) != t,
{
}

/// A host's tags joined with `, `, or `-` when it has none.
pub open spec fn tags_line(tags: Seq<Seq<char>>) -> Seq<char> {
    if tags.len() == 0 {
        "-"@
    } else {
        joined(tags, ", "@)
    }
}

/// A host's active closure, or `unattached`.
pub open spec fn closure_line(h: HostEntity) -> Seq<char> {
    match h.active_closure {
        Some(p) => p@,
        None => "unattached"@,
    }
}

/// A host's locality: `localhost` or `remote`.
pub open spec fn locality_line(h: HostEntity) -> Seq<char> {
    if h.is_local {
        "localhost"@
    } else {
        "remote"@
    }
}

/// The number of `true` entries of `s`.
pub open spec fn count_true(s: Seq<bool>) -> nat
    decreases s.len(),
{
    if s.len() == 0 {
        0
    } else {
        count_true(s.drop_last()) + if s.last() {
            1nat
        } else {
            0nat
        }
    }
}

/// The reachability cell of row `i`: online when the snapshot says so.
pub open spec fn status_cell(online: Seq<bool>, i: int) -> Seq<char> {
    if i < online.len() && online[i] {
        "\u{25cf} online"@
    } else {
        "\u{25cb} offline"@
    }
}

/// One row of the host matrix: its cells and whether it is highlighted.
#[derive(Debug, Clone, PartialEq, Eq)]
pub struct MatrixRow {
    /// Name, role, target, tags, reachability and active closure.
    pub cells: Vec<String>,
    pub highlighted: bool,
}

/// The cells of the matrix row of host `i`.
pub open spec fn row_cells(app: DashboardApp, online: Seq<bool>, i: int) -> Seq<Seq<char>> {
    let h = app.hosts@[i];
    seq![h.name@, role_text(h.role@), h.target_host@, tags_line(views(h.tags@)), status_cell(online, i), closure_line(h)]
}

/// The text of the detail pane for the selected host.
pub open spec fn detail_text(app: DashboardApp) -> Seq<Seq<char>> {
    if app.hosts@.len() == 0 {
        seq!["  no host selected"@]
    } else {
        let h = app.hosts@[app.selected_index as int];
        let p = crate::host::SshProfile::host_profile(h.target_user@, h.target_port, h.is_local);
        seq![
            " Selected Host "@,
            "  name      "@ + h.name@,
            "  role      "@ + role_text(h.role@),
            "  target    "@ + h.target_host@,
            "  ssh       "@ + p.user + "@"@ + h.target_host@ + ":"@ + decimal(p.port as nat),
            "  closure   "@ + closure_line(h),
            "  tags      "@ + tags_line(views(h.tags@)),
            "  locality  "@ + locality_line(h),
        ]
    }
}

/// The text of the log pane: the entries newest first, indented, or a
/// placeholder.
pub open spec fn log_text(logs: Seq<Seq<char>>) -> Seq<Seq<char>> {
    if logs.len() == 0 {
        seq!["  no operations yet"@]
    } else {
        Seq::new(logs.len(), |i: int| "  "@ + logs[logs.len() - 1 - i])
    }
}

/// Comma-joined tag list, or a dash when the host has none.
pub fn tags_text(host: &HostEntity) -> (s: String)
    ensures
        s@ == tags_line(views(host.tags@)),
{
    if host.tags.len() == 0 {
        return String::from_str("-");
    }
    crate::text::join(&host.tags, ", ")
}

/// The active closure path, or a placeholder when the host has none.
pub fn closure_text(host: &HostEntity) -> (s: String)
    ensures
        s@ == closure_line(*host),
{
    match &host.active_closure {
        Some(p) => p.clone(),
        None => String::from_str("unattached"),
    }
}

/// Human-readable locality for the detail pane.
pub fn locality_text(host: &HostEntity) -> (s: String)
    ensures
        s@ == locality_line(*host),
{
    if host.is_local {
        String::from_str("localhost")
    } else {
        String::from_str("remote")
    }
}

/// Counts the reachable hosts in a reachability snapshot.
pub fn count_online(online: &Vec<bool>) -> (n: usize)
    ensures
        n == count_true(online@),
        n <= online@.len(),
{
    let mut n: usize = 0;
    let mut i: usize = 0;
    while i < online.len()
        invariant
            i <= online@.len(),
            n == count_true(online@.take(i as int)),
            n <= i,
        decreases online@.len() - i,
    {
        proof {
            assert(online@.take(i as int + 1).drop_last() =~= online@.take(i as int));
        }
        if online[i] {
            n += 1;
        }
        i += 1;
    }
    proof {
        assert(online@.take(online@.len() as int) =~= online@);
    }
    n
}

/// The header counts: hosts, reachable and unreachable entries of the snapshot.
pub fn header_counts(app: &DashboardApp, online: &Vec<bool>) -> (r: (usize, usize, usize))
    ensures
        r.0 == app.hosts@.len(),
        r.1 == count_true(online@),
        r.2 == online@.len() - count_true(online@),
{
    let up = count_online(online);
    (app.hosts.len(), up, online.len() - up)
}

/// The rows of the host matrix, the selected one highlighted.
pub fn matrix_rows(app: &DashboardApp, online: &Vec<bool>) -> (rows: Vec<MatrixRow>)
    ensures
        rows@.len() == app.hosts@.len(),
        forall|i: int| 0 <= i < rows@.len() ==> {
            let r = #[trigger] rows@[i];
            &&& views(r.cells@) == row_cells(*app, online@, i)
            &&& r.highlighted == (i == app.selected_index)
        },
{
    let mut rows: Vec<MatrixRow> = Vec::new();
    let mut i: usize = 0;
    while i < app.hosts.len()
        invariant
            i <= app.hosts@.len(),
            rows@.len() == i,
            forall|k: int| 0 <= k < i ==> {
                let r = #[trigger] rows@[k];
                &&& views(r.cells@) == row_cells(*app, online@, k)
                &&& r.highlighted == (k == app.selected_index)
            },
        decreases app.hosts@.len() - i,
    {
        let host = &app.hosts[i];
        let is_up = i < online.len() && online[i];
        let status = if is_up {
            String::from_str("\u{25cf} online")
        } else {
            String::from_str("\u{25cb} offline")
        };
        let mut cells: Vec<String> = Vec::new();
        cells.push(host.name.clone());
        cells.push(host.role.to_str());
        cells.push(host.target_host.clone());
        cells.push(tags_text(host));
        cells.push(status);
        cells.push(closure_text(host));
        proof {
            assert(views(cells@) =~= row_cells(*app, online@, i as int));
        }
        rows.push(MatrixRow { cells, highlighted: i == app.selected_index });
        i += 1;
    }
    rows
}

/// The lines of the detail pane.
pub fn detail_lines(app: &DashboardApp) -> (lines: Vec<String>)
    requires
        app.wf(),
    ensures
        views(lines@) == detail_text(*app),
{
    let mut lines: Vec<String> = Vec::new();
    match app.selected_host() {
        None => {
            lines.push(String::from_str("  no host selected"));
            proof {
                assert(views(lines@) =~= detail_text(*app));
            }
        },
        Some(host) => {
            let profile = host.ssh_profile();
            lines.push(String::from_str(" Selected Host "));
            let mut a = String::from_str("  name      ");
            a.append(host.name.as_str());
            lines.push(a);
            let mut b = String::from_str("  role      ");
            b.append(host.role.to_str().as_str());
            lines.push(b);
            let mut c = String::from_str("  target    ");
            c.append(host.target_host.as_str());
            lines.push(c);
            let mut d = String::from_str("  ssh       ");
            d.append(profile.user());
            d.append("@");
            d.append(host.target_host.as_str());
            d.append(":");
            d.append(decimal_string(profile.port() as u64).as_str());
            lines.push(d);
            let mut e = String::from_str("  closure   ");
            e.append(closure_text(host).as_str());
            lines.push(e);
            let mut f = String::from_str("  tags      ");
            f.append(tags_text(host).as_str());
            lines.push(f);
            let mut g = String::from_str("  locality  ");
            g.append(locality_text(host).as_str());
            lines.push(g);
            proof {
                assert(views(lines@) =~= detail_text(*app));
            }
        },
    }
    lines
}

/// The lines of the log pane, newest first.
pub fn log_lines(app: &DashboardApp) -> (lines: Vec<String>)
    ensures
        views(lines@) == log_text(views(app.logs@)),
{
    let n = app.logs.len();
    let mut lines: Vec<String> = Vec::new();
    let mut i: usize = 0;
    while i < n
        invariant
            n == app.logs@.len(),
            i <= n,
            lines@.len() == i,
            forall|k: int| 0 <= k < i ==> (#[trigger] lines@[k])@ == "  "@ + app.logs@[n - 1 - k]@,
        decreases n - i,
    {
        let mut l = String::from_str("  ");
        l.append(app.logs[n - 1 - i].as_str());
        lines.push(l);
        i += 1;
    }
    if lines.len() == 0 {
        lines.push(String::from_str("  no operations yet"));
        proof {
            assert(views(lines@) =~= log_text(views(app.logs@)));
        }
    } else {
        proof {
            assert(views(lines@) =~= log_text(views(app.logs@)));
        }
    }
    lines
}

/// Normalized terminal events surfaced to the event loop.
#[derive(Debug, Clone, Copy, PartialEq, Eq, Structural)]
pub enum UiEvent {
    /// A keypress worth acting on.
    Key(DashboardKey),
    /// The terminal window was resized to `(width, height)`.
    Resize(u16, u16),
}

/// A pressed key, as far as the dashboard tells keys apart.
#[derive(Debug, Clone, Copy, PartialEq, Eq, Structural)]
pub enum KeyInput {
    Down,
    Up,
    Tab,
    Char(char),
    /// Any other key.
    Other,
}

/// The event a key press means: arrows and `j`/`k` move, `Tab` switches
/// panes, `q` quits, `s`/`r`/`d` request switch, rollback and diff; every
/// other key is ignored.
pub open spec fn key_event(k: KeyInput) -> Option<UiEvent> {
    match k {
        KeyInput::Down => Some(UiEvent::Key(DashboardKey::Down)),
        KeyInput::Up => Some(UiEvent::Key(DashboardKey::Up)),
        KeyInput::Tab => Some(UiEvent::Key(DashboardKey::Tab)),
        KeyInput::Char(c) => if c == 'q' {
            Some(UiEvent::Key(DashboardKey::Quit))
        } else if c == 'j' {
            Some(UiEvent::Key(DashboardKey::Down))
        } else if c == 'k' {
            Some(UiEvent::Key(DashboardKey::Up))
        } else if c == 's' {
            Some(UiEvent::Key(DashboardKey::Switch))
        } else if c == 'r' {
            Some(UiEvent::Key(DashboardKey::Rollback))
        } else if c == 'd' {
            Some(UiEvent::Key(DashboardKey::Diff))
        } else {
            None
        },
        KeyInput::Other => None,
    }
}

/// Translates a key press into a dashboard event, or `None` for keys the
/// dashboard ignores.
pub fn map_key(code: KeyInput) -> (r: Option<UiEvent>)
    ensures
        r == key_event(code),
{
    match code {
        KeyInput::Down => Some(UiEvent::Key(DashboardKey::Down)),
        KeyInput::Up => Some(UiEvent::Key(DashboardKey::Up)),
        KeyInput::Tab => Some(UiEvent::Key(DashboardKey::Tab)),
        KeyInput::Char('q') => Some(UiEvent::Key(DashboardKey::Quit)),
        KeyInput::Char('j') => Some(UiEvent::Key(DashboardKey::Down)),
        KeyInput::Char('k') => Some(UiEvent::Key(DashboardKey::Up)),
        KeyInput::Char('s') => Some(UiEvent::Key(DashboardKey::Switch)),
        KeyInput::Char('r') => Some(UiEvent::Key(DashboardKey::Rollback)),
        KeyInput::Char('d') => Some(UiEvent::Key(DashboardKey::Diff)),
        _ => None,
    }
}

/// What a diff of a host reports: in sync when its live closure is the one
/// just built, drifted otherwise (a host without a live closure included).
pub open spec fn diff_text(current: Option<Seq<char>>, built: Seq<char>) -> Seq<char> {
    if current == Some(built) {
        "diff: in sync"@
    } else {
        "diff: drifted"@
    }
}

/// Exec form of [`diff_text`].
pub fn diff_outcome(current: Option<&str>, built: &str) -> (s: String)
    ensures
        s@ == diff_text(
            match current {
                Some(c) => Some(c@),
                None => None,
            },
            built@,
        ),
{
    match current {
        Some(c) => if crate::text::str_eq(c, built) {
            String::from_str("diff: in sync")
        } else {
            String::from_str("diff: drifted")
        },
        None => String::from_str("diff: drifted"),
    }
}

/// The log line of an action's outcome on `host_name`: its message, or
/// `error: ` and the error's message.
pub fn outcome_line(host_name: &str, outcome: &Result<String, NodError>) -> (s: String)
    ensures
        s@ == host_name@ + ": "@ + match outcome {
            Ok(m) => m@,
            Err(e) => "error: "@ + e.message_text(),
        },
{
    let mut s = host_name.to_owned();
    s.append(": ");
    match outcome {
        Ok(m) => {
            s.append(m.as_str());
        },
        Err(e) => {
            s.append("error: ");
            s.append(e.message().as_str());
        },
    }
    s
}

} // verus!
