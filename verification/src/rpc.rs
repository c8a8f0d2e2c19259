//! Serve mode and remote sessions: addresses, the data directory, session
//! file names that cannot leave it, and the server's bookkeeping of live
//! and completed sessions.
use vstd::prelude::*;
use vstd::string::StringExecFns;
use crate::logger::{format_rfc3339_seconds, json_quote, json_string, level_name, opt_str, rfc3339_seconds_text, Level};
use crate::text::{chars_eq, chars_of, push_char, push_decimal, push_signed_decimal, decimal, signed_decimal, path_join, spec_path_join};

verus! {

/// `:port` means the loopback interface when connecting.
pub open spec fn spec_resolve_tcp_addr(addr: Seq<char>) -> Seq<char> {
    if addr.len() > 0 && addr[0] == ':' {
        "127.0.0.1"@ + addr
    } else {
        addr
    }
}

/// The address a client connects to: `:port` is loopback, not all
/// interfaces.
pub fn resolve_tcp_addr(addr: &str) -> (r: String)
    ensures
        r@ == spec_resolve_tcp_addr(addr@),
{
    let c = chars_of(addr);
    if c.len() > 0 && c[0] == ':' {
        let mut r = "127.0.0.1".to_owned();
        r.append(addr);
        r
    } else {
        addr.to_owned()
    }
}

/// `:port` means every interface when listening.
pub open spec fn spec_serve_bind_addr(addr: Seq<char>) -> Seq<char> {
    if addr.len() > 0 && addr[0] == ':' {
        "0.0.0.0"@ + addr
    } else {
        addr
    }
}

/// The address the server listens on.
pub fn serve_bind_addr(addr: &str) -> (r: String)
    ensures
        r@ == spec_serve_bind_addr(addr@),
{
    let c = chars_of(addr);
    if c.len() > 0 && c[0] == ':' {
        let mut r = "0.0.0.0".to_owned();
        r.append(addr);
        r
    } else {
        addr.to_owned()
    }
}

/// The session data directory: `$XDG_DATA_HOME/bless/sessions`, else
/// `$HOME/.local/share/bless/sessions`, else `.bless_sessions`.
pub open spec fn spec_session_data_dir(xdg_data_home: Option<Seq<char>>, home: Option<Seq<char>>) -> Seq<char> {
    let data = match xdg_data_home {
        Some(x) => Some(x),
        None => match home {
            Some(h) => Some(spec_path_join(spec_path_join(h, ".local"@), "share"@)),
            None => None,
        },
    };
    match data {
        Some(d) => spec_path_join(spec_path_join(d, "bless"@), "sessions"@),
        None => ".bless_sessions"@,
    }
}

/// Where serve mode keeps session archives, from the values of
/// `XDG_DATA_HOME` and `HOME`.
pub fn dirs_or_default(xdg_data_home: Option<&str>, home: Option<&str>) -> (r: String)
    ensures
        r@ == spec_session_data_dir(opt_str(xdg_data_home), opt_str(home)),
{
    let data: Option<String> = match xdg_data_home {
        Some(x) => Some(x.to_owned()),
        None => match home {
            Some(h) => {
                let l = path_join(h, ".local");
                Some(path_join(l.as_str(), "share"))
            },
            None => None,
        },
    };
    match data {
        Some(d) => {
            let b = path_join(d.as_str(), "bless");
            path_join(b.as_str(), "sessions")
        },
        None => ".bless_sessions".to_owned(),
    }
}

/// Characters allowed in a session label or uuid.
pub open spec fn session_char_ok(c: char) -> bool {
    ('A' <= c && c <= 'Z') || ('a' <= c && c <= 'z') || ('0' <= c && c <= '9') || c == '.' || c == '_' || c == '-'
}

/// `s` holds `..` somewhere.
pub open spec fn has_dotdot(s: Seq<char>) -> bool {
    exists|i: int| 0 <= i < s.len() - 1 && s[i] == '.' && #[trigger] s[i + 1] == '.'
}

/// Checking a label or uuid before it becomes part of a file name: the
/// value itself, or the message refusing it.
pub open spec fn spec_sanitize_session_component(value: Seq<char>) -> Result<Seq<char>, Seq<char>> {
    if value.len() == 0 {
        Err("empty label/uuid"@)
    } else if has_dotdot(value) {
        Err("label/uuid must not contain .."@)
    } else if value[0] == '/' {
        Err("label/uuid must not be an absolute path"@)
    } else if !(forall|i: int| 0 <= i < value.len() ==> session_char_ok(#[trigger] value[i])) {
        Err("label/uuid may only contain [A-Za-z0-9._-]"@)
    } else {
        Ok(value)
    }
}

/// A label or uuid usable in a session file name: non-empty, without `..`,
/// not absolute, and made of `[A-Za-z0-9._-]` only.
pub fn sanitize_session_component(value: &str) -> (r: Result<&str, String>)
    ensures
        match r {
            Ok(v) => spec_sanitize_session_component(value@) == Ok::<Seq<char>, Seq<char>>(v@),
            Err(m) => spec_sanitize_session_component(value@) == Err::<Seq<char>, Seq<char>>(m@),
        },
{
    let c = chars_of(value);
    if c.len() == 0 {
        return Err("empty label/uuid".to_owned());
    }
    let mut i: usize = 0;
    while i < c.len() - 1
        invariant
            c@ == value@,
            c@.len() > 0,
            i + 1 <= c@.len(),
            forall|j: int| 0 <= j < i ==> !(c@[j] == '.' && #[trigger] c@[j + 1] == '.'),
        decreases c@.len() - i,
    {
        if c[i] == '.' && c[i + 1] == '.' {
            return Err("label/uuid must not contain ..".to_owned());
        }
        i = i + 1;
    }
    assert(!has_dotdot(value@));
    if c[0] == '/' {
        return Err("label/uuid must not be an absolute path".to_owned());
    }
    let mut k: usize = 0;
    while k < c.len()
        invariant
            c@ == value@,
            c@.len() > 0,
            !has_dotdot(value@),
            c@[0] != '/',
            k <= c@.len(),
            forall|j: int| 0 <= j < k ==> session_char_ok(#[trigger] c@[j]),
        decreases c@.len() - k,
    {
        let ch = c[k];
        let ok = ('A' <= ch && ch <= 'Z') || ('a' <= ch && ch <= 'z') || ('0' <= ch && ch <= '9') || ch == '.'
            || ch == '_' || ch == '-';
        if !ok {
            assert(!session_char_ok(c@[k as int]));
            return Err("label/uuid may only contain [A-Za-z0-9._-]".to_owned());
        }
        k = k + 1;
    }
    Ok(value)
}

/// The archive file name of a session: `{label}_{uuid}.log.gz` once both
/// parts are accepted by [`sanitize_session_component`] (the label first).
pub open spec fn spec_session_file_name(label: Seq<char>, uuid: Seq<char>) -> Result<Seq<char>, Seq<char>> {
    match spec_sanitize_session_component(label) {
        Err(m) => Err(m),
        Ok(l) => match spec_sanitize_session_component(uuid) {
            Err(m) => Err(m),
            Ok(u) => Ok(l + seq!['_'] + u + ".log.gz"@),
        },
    }
}

/// The archive file name of a session.
pub fn session_file_name(label: &str, uuid: &str) -> (r: Result<String, String>)
    ensures
        match r {
            Ok(n) => spec_session_file_name(label@, uuid@) == Ok::<Seq<char>, Seq<char>>(n@),
            Err(m) => spec_session_file_name(label@, uuid@) == Err::<Seq<char>, Seq<char>>(m@),
        },
{
    let l = match sanitize_session_component(label) {
        Ok(v) => v,
        Err(m) => {
            return Err(m);
        },
    };
    let u = match sanitize_session_component(uuid) {
        Ok(v) => v,
        Err(m) => {
            return Err(m);
        },
    };
    let mut n = l.to_owned();
    push_char(&mut n, '_');
    n.append(u);
    n.append(".log.gz");
    assert(n@ =~= l@ + seq!['_'] + u@ + ".log.gz"@);
    Ok(n)
}

/// A session file name is a single plain component: it holds no `/` and is
/// neither `.` nor `..`, so joined onto the data directory it names a file
/// directly inside it.
pub proof fn lemma_session_file_name_stays_in_dir(label: Seq<char>, uuid: Seq<char>)
    requires
        spec_session_file_name(label, uuid) is Ok,
    ensures
        ({
            let n = spec_session_file_name(label, uuid)->Ok_0;
            &&& forall|i: int| 0 <= i < n.len() ==> #[trigger] n[i] != '/'
            &&& n != "."@
            &&& n != ".."@
            &&& n.len() > 0
        }),
{
    reveal_strlit(".log.gz");
    reveal_strlit(".");
    reveal_strlit("..");
    let n = spec_session_file_name(label, uuid)->Ok_0;
    assert forall|i: int| 0 <= i < n.len() implies #[trigger] n[i] != '/' by {
        if i < label.len() {
            assert(session_char_ok(label[i]));
        } else if i > label.len() && i < label.len() + 1 + uuid.len() {
            assert(session_char_ok(uuid[i - label.len() - 1]));
        }
    }
    assert(n.len() > 7);
}

/// How a wire log level is shown (`UNKNOWN` for a level outside the schema).
pub fn capnp_level_display(level: Option<Level>) -> (s: &'static str)
    ensures
        s@ == match level {
            Some(l) => level_name(l),
            None => "UNKNOWN"@,
        },
{
    match level {
        Some(l) => l.as_str(),
        None => "UNKNOWN",
    }
}

/// One archive line of a session: `[{timestamp} {LEVEL}] {message}`, the
/// shape the local gzip archives use.
pub open spec fn spec_session_log_line(secs: u64, level: Seq<char>, message: Seq<char>) -> Seq<char> {
    seq!['['] + rfc3339_seconds_text(secs) + seq![' '] + level + seq![']', ' '] + message
}

/// Formats one line received from a remote client, stamped at `secs`
/// seconds after the epoch.
pub fn format_session_log_line(secs: u64, level: &str, message: &str) -> (r: String)
    requires
        secs < 253_402_300_800,
    ensures
        r@ == spec_session_log_line(secs, level@, message@),
{
    let mut r = String::new();
    push_char(&mut r, '[');
    let ts = format_rfc3339_seconds(secs);
    r.append(ts.as_str());
    push_char(&mut r, ' ');
    r.append(level);
    push_char(&mut r, ']');
    push_char(&mut r, ' ');
    r.append(message);
    proof {
        assert(r@ =~= spec_session_log_line(secs, level@, message@));
    }
    r
}

/// The closing line of a session archive.
pub open spec fn spec_session_end_line(exit_code: i32, duration: Seq<char>, lines: u64) -> Seq<char> {
    "[session-end] exit_code="@ + signed_decimal(exit_code as int) + " duration="@ + duration + " lines="@
        + decimal(lines as nat)
}

/// `[session-end] exit_code={} duration={} lines={}`.
pub fn session_end_line(exit_code: i32, duration: &str, lines: u64) -> (r: String)
    ensures
        r@ == spec_session_end_line(exit_code, duration@, lines),
{
    let mut r = "[session-end] exit_code=".to_owned();
    push_signed_decimal(&mut r, exit_code as i64);
    r.append(" duration=");
    r.append(duration);
    r.append(" lines=");
    push_decimal(&mut r, lines);
    r
}

/// The index line appended to `index.json` when a session closes (keys in
/// this order).
pub open spec fn spec_session_index_entry(
    uuid: Seq<char>,
    label: Seq<char>,
    command: Seq<char>,
    exit_code: i32,
    duration: Seq<char>,
    line_count: u64,
) -> Seq<char> {
    "{\"uuid\":"@ + json_quote(uuid) + ",\"label\":"@ + json_quote(label) + ",\"command\":"@ + json_quote(command)
        + ",\"exit_code\":"@ + signed_decimal(exit_code as int) + ",\"duration\":"@ + json_quote(duration)
        + ",\"line_count\":"@ + decimal(line_count as nat) + "}"@
}

/// The JSON index entry of a closed session.
pub fn session_index_entry(uuid: &str, label: &str, command: &str, exit_code: i32, duration: &str, line_count: u64) -> (r: String)
    ensures
        r@ == spec_session_index_entry(uuid@, label@, command@, exit_code, duration@, line_count),
{
    let mut r = "{\"uuid\":".to_owned();
    r.append(json_string(uuid).as_str());
    r.append(",\"label\":");
    r.append(json_string(label).as_str());
    r.append(",\"command\":");
    r.append(json_string(command).as_str());
    r.append(",\"exit_code\":");
    push_signed_decimal(&mut r, exit_code as i64);
    r.append(",\"duration\":");
    r.append(json_string(duration).as_str());
    r.append(",\"line_count\":");
    push_decimal(&mut r, line_count);
    r.append("}");
    r
}

/// What `listSessions` reports of a session. Live sessions leave the
/// duration empty and the exit code at 0.
#[derive(Clone, Debug, PartialEq, Eq)]
pub struct SessionSummaryData {
    pub uuid: String,
    pub label: String,
    pub command: String,
    pub duration: String,
    pub line_count: u64,
    pub exit_code: i32,
}

/// A summary seen through the characters of its strings.
pub struct SummaryModel {
    pub uuid: Seq<char>,
    pub label: Seq<char>,
    pub command: Seq<char>,
    pub duration: Seq<char>,
    pub line_count: u64,
    pub exit_code: i32,
}

impl View for SessionSummaryData {
    type V = SummaryModel;

    open spec fn view(&self) -> SummaryModel {
        SummaryModel {
            uuid: self.uuid@,
            label: self.label@,
            command: self.command@,
            duration: self.duration@,
            line_count: self.line_count,
            exit_code: self.exit_code,
        }
    }
}

pub open spec fn summary_views(s: Seq<SessionSummaryData>) -> Seq<SummaryModel> {
    s.map_values(|x: SessionSummaryData| x@)
}

/// The first `limit` elements of `s` (all of them when there are fewer).
pub open spec fn first_n<A>(s: Seq<A>, limit: int) -> Seq<A> {
    if limit < s.len() {
        s.take(limit)
    } else {
        s
    }
}

fn clone_summary(x: &SessionSummaryData) -> (r: SessionSummaryData)
    ensures
        r@ == x@,
{
    SessionSummaryData {
        uuid: x.uuid.clone(),
        label: x.label.clone(),
        command: x.command.clone(),
        duration: x.duration.clone(),
        line_count: x.line_count,
        exit_code: x.exit_code,
    }
}

/// Live sessions first, then completed ones, truncated to `limit`.
pub fn collect_session_summaries(live: &[SessionSummaryData], completed: &[SessionSummaryData], limit: usize) -> (r: Vec<SessionSummaryData>)
    ensures
        summary_views(r@) == first_n(summary_views(live@) + summary_views(completed@), limit as int),
{
    let ghost all = summary_views(live@) + summary_views(completed@);
    let mut out: Vec<SessionSummaryData> = Vec::new();
    let mut i: usize = 0;
    proof {
        assert(summary_views(out@) =~= all.take(0));
    }
    while i < live.len() && out.len() < limit
        invariant
            i <= live@.len(),
            out@.len() == i,
            i <= limit,
            all == summary_views(live@) + summary_views(completed@),
            summary_views(out@) == all.take(i as int),
        decreases live@.len() - i,
    {
        out.push(clone_summary(&live[i]));
        proof {
            assert(all[i as int] == live@[i as int]@);
            assert(summary_views(out@) =~= all.take(i + 1));
        }
        i = i + 1;
    }
    let mut j: usize = 0;
    while j < completed.len() && out.len() < limit
        invariant
            j <= completed@.len(),
            out@.len() == i + j,
            out@.len() <= limit,
            i == live@.len() || out@.len() == limit,
            i <= live@.len(),
            j > 0 ==> i == live@.len(),
            all == summary_views(live@) + summary_views(completed@),
            summary_views(out@) == all.take(out@.len() as int),
        decreases completed@.len() - j,
    {
        out.push(clone_summary(&completed[j]));
        proof {
            assert(all[(i + j) as int] == completed@[j as int]@);
            assert(summary_views(out@) =~= all.take(i + j + 1));
        }
        j = j + 1;
    }
    proof {
        if !(limit < all.len()) {
            assert(out@.len() == all.len());
            assert(all.take(all.len() as int) =~= all);
        }
    }
    out
}

/// One session's state on the server.
#[derive(Clone, Debug, PartialEq, Eq)]
pub struct SessionState {
    pub label: String,
    pub uuid: String,
    pub command: String,
    pub line_count: u64,
}

/// A session state seen through the characters of its strings.
pub struct StateModel {
    pub label: Seq<char>,
    pub uuid: Seq<char>,
    pub command: Seq<char>,
    pub line_count: u64,
}

impl View for SessionState {
    type V = StateModel;

    open spec fn view(&self) -> StateModel {
        StateModel { label: self.label@, uuid: self.uuid@, command: self.command@, line_count: self.line_count }
    }
}

/// The summary of a live session.
pub open spec fn spec_live_summary(s: StateModel) -> SummaryModel {
    SummaryModel {
        uuid: s.uuid,
        label: s.label,
        command: s.command,
        duration: Seq::empty(),
        line_count: s.line_count,
        exit_code: 0,
    }
}

/// The summary of a closed session.
pub open spec fn spec_closed_summary(s: StateModel, exit_code: i32, duration: Seq<char>) -> SummaryModel {
    SummaryModel {
        uuid: s.uuid,
        label: s.label,
        command: s.command,
        duration,
        line_count: s.line_count,
        exit_code,
    }
}

fn clone_state(x: &SessionState) -> (r: SessionState)
    ensures
        r@ == x@,
{
    SessionState {
        label: x.label.clone(),
        uuid: x.uuid.clone(),
        command: x.command.clone(),
        line_count: x.line_count,
    }
}

impl SessionState {
    /// What `listSessions` reports while the session is open.
    pub fn live_summary(&self) -> (r: SessionSummaryData)
        ensures
            r@ == spec_live_summary(self@),
    {
        SessionSummaryData {
            uuid: self.uuid.clone(),
            label: self.label.clone(),
            command: self.command.clone(),
            duration: String::new(),
            line_count: self.line_count,
            exit_code: 0,
        }
    }
}

/// The server's sessions: every session ever opened (a sink keeps its own
/// session by handle), which of them are live (at most one per uuid), and
/// the summaries of closed ones in closing order.
pub struct SessionRegistry {
    states: Vec<SessionState>,
    live: Vec<usize>,
    completed: Vec<SessionSummaryData>,
}

/// The registry seen abstractly.
pub struct RegistryModel {
    pub states: Seq<StateModel>,
    pub live: Seq<int>,
    pub completed: Seq<SummaryModel>,
}

impl View for SessionRegistry {
    type V = RegistryModel;

    closed spec fn view(&self) -> RegistryModel {
        RegistryModel {
            states: self.states@.map_values(|s: SessionState| s@),
            live: self.live@.map_values(|h: usize| h as int),
            completed: summary_views(self.completed@),
        }
    }
}

/// Live handles name opened sessions, and no two live sessions share a uuid.
pub open spec fn registry_wf(m: RegistryModel) -> bool {
    &&& forall|i: int| 0 <= i < m.live.len() ==> 0 <= #[trigger] m.live[i] < m.states.len()
    &&& forall|i: int, j: int| 0 <= i < m.live.len() && 0 <= j < m.live.len() && i != j
        ==> m.states[#[trigger] m.live[i]].uuid != m.states[#[trigger] m.live[j]].uuid
}

/// The live entry whose session has `uuid`, if any.
pub open spec fn live_slot(m: RegistryModel, uuid: Seq<char>) -> Option<int> {
    if exists|i: int| 0 <= i < m.live.len() && #[trigger] m.states[m.live[i]].uuid == uuid {
        Some(choose|i: int| 0 <= i < m.live.len() && #[trigger] m.states[m.live[i]].uuid == uuid)
    } else {
        None
    }
}

/// Opening a session: it gets the next handle with no lines yet, and
/// becomes the live session of its uuid (replacing an earlier one).
pub open spec fn spec_open(m: RegistryModel, label: Seq<char>, uuid: Seq<char>, command: Seq<char>) -> RegistryModel {
    let h = m.states.len() as int;
    RegistryModel {
        states: m.states.push(StateModel { label, uuid, command, line_count: 0 }),
        live: match live_slot(m, uuid) {
            Some(i) => m.live.update(i, h),
            None => m.live.push(h),
        },
        completed: m.completed,
    }
}

/// Recording `n` written lines on session `h`.
pub open spec fn spec_record_lines(m: RegistryModel, h: int, n: u64) -> RegistryModel {
    RegistryModel {
        states: m.states.update(h, StateModel { line_count: (m.states[h].line_count + n) as u64, ..m.states[h] }),
        ..m
    }
}

/// Closing session `h`: the live session of its uuid is dropped and the
/// closed summary appended.
pub open spec fn spec_close(m: RegistryModel, h: int, exit_code: i32, duration: Seq<char>) -> RegistryModel {
    RegistryModel {
        states: m.states,
        live: match live_slot(m, m.states[h].uuid) {
            Some(i) => m.live.remove(i),
            None => m.live,
        },
        completed: m.completed.push(spec_closed_summary(m.states[h], exit_code, duration)),
    }
}

/// `listSessions`: live sessions, then completed ones, truncated to `limit`.
pub open spec fn spec_list(m: RegistryModel, limit: int) -> Seq<SummaryModel> {
    first_n(m.live.map_values(|h: int| spec_live_summary(m.states[h])) + m.completed, limit)
}

impl SessionRegistry {
    /// No sessions.
    pub fn new() -> (r: SessionRegistry)
        ensures
            registry_wf(r@),
            r@.states.len() == 0,
            r@.live.len() == 0,
            r@.completed.len() == 0,
    {
        SessionRegistry { states: Vec::new(), live: Vec::new(), completed: Vec::new() }
    }

    /// Number of sessions ever opened.
    pub fn session_count(&self) -> (n: usize)
        ensures
            n == self@.states.len(),
    {
        self.states.len()
    }

    fn find_live(&self, uuid: &str) -> (r: Option<usize>)
        requires
            registry_wf(self@),
        ensures
            match r {
                Some(i) => live_slot(self@, uuid@) == Some(i as int),
                None => live_slot(self@, uuid@) is None,
            },
    {
        let u = chars_of(uuid);
        let mut i: usize = 0;
        while i < self.live.len()
            invariant
                registry_wf(self@),
                u@ == uuid@,
                i <= self.live@.len(),
                forall|k: int| 0 <= k < i ==> #[trigger] self@.states[self@.live[k]].uuid != uuid@,
            decreases self.live@.len() - i,
        {
            let h = self.live[i];
            proof {
                assert(self@.live[i as int] == h as int);
                assert(self@.states[h as int] == self.states@[h as int]@);
            }
            if chars_eq(&chars_of(self.states[h].uuid.as_str()), &u) {
                proof {
                    let m = self@;
                    assert(m.states[m.live[i as int]].uuid == uuid@);
                    let c = choose|c: int| 0 <= c < m.live.len() && #[trigger] m.states[m.live[c]].uuid == uuid@;
                    if c != i {
                        assert(m.states[m.live[c]].uuid != m.states[m.live[i as int]].uuid);
                    }
                }
                return Some(i);
            }
            i = i + 1;
        }
        None
    }

    /// Registers a newly opened session; returns its handle.
    pub fn open(&mut self, label: &str, uuid: &str, command: &str) -> (h: usize)
        requires
            registry_wf(old(self)@),
            old(self)@.states.len() < usize::MAX,
        ensures
            registry_wf(final(self)@),
            h == old(self)@.states.len(),
            final(self)@ == spec_open(old(self)@, label@, uuid@, command@),
    {
        let slot = self.find_live(uuid);
        let ghost m = self@;
        let h = self.states.len();
        self.states.push(SessionState {
            label: label.to_owned(),
            uuid: uuid.to_owned(),
            command: command.to_owned(),
            line_count: 0,
        });
        match slot {
            Some(i) => {
                self.live.set(i, h);
            },
            None => {
                self.live.push(h);
            },
        }
        proof {
            let m2 = self@;
            assert(m2.states =~= spec_open(m, label@, uuid@, command@).states);
            assert(m2.live =~= spec_open(m, label@, uuid@, command@).live);
            assert(m2.completed =~= m.completed);
            assert forall|i: int| 0 <= i < m2.live.len() implies 0 <= #[trigger] m2.live[i] < m2.states.len() by {}
            assert forall|i: int, j: int| 0 <= i < m2.live.len() && 0 <= j < m2.live.len() && i != j
                implies m2.states[#[trigger] m2.live[i]].uuid != m2.states[#[trigger] m2.live[j]].uuid by {
                if m2.live[i] == h as int {
                    assert(m2.states[h as int].uuid == uuid@);
                    if slot is None {
                        assert(m2.live[j] == m.live[j]);
                        assert(m.states[m.live[j]].uuid != uuid@);
                        assert(m2.states[m2.live[j]] == m.states[m.live[j]]);
                    } else {
                        assert(m2.live[j] == m.live[j]);
                        assert(m.states[m.live[slot->Some_0 as int]].uuid == uuid@);
                        assert(m2.states[m2.live[j]] == m.states[m.live[j]]);
                    }
                } else if m2.live[j] == h as int {
                    assert(m2.states[h as int].uuid == uuid@);
                    if slot is None {
                        assert(m2.live[i] == m.live[i]);
                        assert(m.states[m.live[i]].uuid != uuid@);
                        assert(m2.states[m2.live[i]] == m.states[m.live[i]]);
                    } else {
                        assert(m2.live[i] == m.live[i]);
                        assert(m.states[m.live[slot->Some_0 as int]].uuid == uuid@);
                        assert(m2.states[m2.live[i]] == m.states[m.live[i]]);
                    }
                } else {
                    assert(m2.live[i] == m.live[i]);
                    assert(m2.live[j] == m.live[j]);
                    assert(m2.states[m2.live[i]] == m.states[m.live[i]]);
                    assert(m2.states[m2.live[j]] == m.states[m.live[j]]);
                }
            }
        }
        h
    }

    /// Counts `n` more lines written to session `h`'s archive.
    pub fn record_lines(&mut self, h: usize, n: u64)
        requires
            registry_wf(old(self)@),
            h < old(self)@.states.len(),
            old(self)@.states[h as int].line_count + n <= u64::MAX,
        ensures
            registry_wf(final(self)@),
            final(self)@ == spec_record_lines(old(self)@, h as int, n),
    {
        let ghost m = self@;
        proof {
            assert(m.states[h as int] == self.states@[h as int]@);
        }
        let mut st = clone_state(&self.states[h]);
        st.line_count = st.line_count + n;
        self.states.set(h, st);
        proof {
            let m2 = self@;
            assert(m2.states =~= spec_record_lines(m, h as int, n).states);
            assert(m2.live =~= m.live);
            assert forall|i: int, j: int| 0 <= i < m2.live.len() && 0 <= j < m2.live.len() && i != j
                implies m2.states[#[trigger] m2.live[i]].uuid != m2.states[#[trigger] m2.live[j]].uuid by {
                assert(m.states[m.live[i]].uuid != m.states[m.live[j]].uuid);
            }
        }
    }

    /// Closes session `h`: the live session of its uuid leaves the live set
    /// and its summary, with the exit code and duration, is completed.
    pub fn close(&mut self, h: usize, exit_code: i32, duration: &str) -> (r: SessionSummaryData)
        requires
            registry_wf(old(self)@),
            h < old(self)@.states.len(),
        ensures
            registry_wf(final(self)@),
            final(self)@ == spec_close(old(self)@, h as int, exit_code, duration@),
            r@ == spec_closed_summary(old(self)@.states[h as int], exit_code, duration@),
    {
        let ghost m = self@;
        proof {
            assert(m.states[h as int] == self.states@[h as int]@);
        }
        let slot = self.find_live(self.states[h].uuid.as_str());
        match slot {
            Some(i) => {
                self.live.remove(i);
            },
            None => {},
        }
        let st = &self.states[h];
        let summary = SessionSummaryData {
            uuid: st.uuid.clone(),
            label: st.label.clone(),
            command: st.command.clone(),
            duration: duration.to_owned(),
            line_count: st.line_count,
            exit_code,
        };
        self.completed.push(clone_summary(&summary));
        proof {
            let m2 = self@;
            assert(m2.live =~= spec_close(m, h as int, exit_code, duration@).live);
            assert(m2.completed =~= spec_close(m, h as int, exit_code, duration@).completed);
            assert forall|i: int, j: int| 0 <= i < m2.live.len() && 0 <= j < m2.live.len() && i != j
                implies m2.states[#[trigger] m2.live[i]].uuid != m2.states[#[trigger] m2.live[j]].uuid by {
                if let Some(k) = slot {
                    let ii = if i < k { i } else { i + 1 };
                    let jj = if j < k { j } else { j + 1 };
                    assert(m2.live[i] == m.live[ii]);
                    assert(m2.live[j] == m.live[jj]);
                } else {
                    assert(m2.live[i] == m.live[i]);
                }
            }
            assert forall|i: int| 0 <= i < m2.live.len() implies 0 <= #[trigger] m2.live[i] < m2.states.len() by {
                if let Some(k) = slot {
                    let ii = if i < k { i } else { i + 1 };
                    assert(m2.live[i] == m.live[ii]);
                }
            }
        }
        summary
    }

    /// `listSessions`: live sessions first, then completed, truncated to
    /// `limit`.
    pub fn list(&self, limit: usize) -> (r: Vec<SessionSummaryData>)
        requires
            registry_wf(self@),
        ensures
            summary_views(r@) == spec_list(self@, limit as int),
    {
        let ghost lv = self@.live.map_values(|h: int| spec_live_summary(self@.states[h]));
        let mut live: Vec<SessionSummaryData> = Vec::new();
        let mut i: usize = 0;
        proof {
            assert(summary_views(live@) =~= lv.take(0));
        }
        while i < self.live.len()
            invariant
                registry_wf(self@),
                i <= self.live@.len(),
                lv.len() == self@.live.len(),
                live@.len() == i,
                forall|k: int| 0 <= k < lv.len() ==> #[trigger] lv[k] == spec_live_summary(self@.states[self@.live[k]]),
                summary_views(live@) == lv.take(i as int),
            decreases self.live@.len() - i,
        {
            let h = self.live[i];
            proof {
                assert(self@.live[i as int] == h as int);
                assert(self@.states[h as int] == self.states@[h as int]@);
                assert(lv[i as int] == spec_live_summary(self@.states[h as int]));
            }
            let row = self.states[h].live_summary();
            assert(row@ == lv[i as int]);
            let ghost before = live@;
            live.push(row);
            proof {
                assert(live@ =~= before.push(row));
                assert(summary_views(live@).len() == i + 1);
                assert forall|k: int| 0 <= k < i + 1 implies #[trigger] summary_views(live@)[k] == lv.take(i + 1)[k] by {
                    assert(summary_views(live@)[k] == live@[k]@);
                    if k < i {
                        assert(live@[k] == before[k]);
                        assert(summary_views(before)[k] == before[k]@);
                        assert(summary_views(before)[k] == lv.take(i as int)[k]);
                    } else {
                        assert(live@[k] == row);
                    }
                }
                assert(summary_views(live@) =~= lv.take(i + 1));
            }
            i = i + 1;
        }
        proof {
            assert(lv.take(lv.len() as int) =~= lv);
            assert(summary_views(self.completed@) == self@.completed);
        }
        collect_session_summaries(&live, &self.completed, limit)
    }
}

/// A log line as a remote client sends it: its time in whole seconds after
/// the epoch, its level (`None` for a level outside the wire schema) and
/// its text.
#[derive(Clone, Debug)]
pub struct WireLine {
    pub secs: u64,
    pub level: Option<Level>,
    pub message: String,
}

/// The level text of a wire line.
pub open spec fn wire_level_text(level: Option<Level>) -> Seq<char> {
    match level {
        Some(l) => level_name(l),
        None => "UNKNOWN"@,
    }
}

/// The archive lines of a batch, in order.
pub open spec fn spec_batch_lines(lines: Seq<WireLine>) -> Seq<Seq<char>> {
    lines.map_values(|l: WireLine| spec_session_log_line(l.secs, wire_level_text(l.level), l.message@))
}

/// The characters of each string.
pub open spec fn string_views(v: Seq<String>) -> Seq<Seq<char>> {
    v.map_values(|s: String| s@)
}

impl SessionRegistry {
    /// A batch written to session `h`: the archive lines to append, in
    /// order, and the session's line count raised by the batch size.
    pub fn write_batch(&mut self, h: usize, lines: &[WireLine]) -> (r: Vec<String>)
        requires
            registry_wf(old(self)@),
            h < old(self)@.states.len(),
            old(self)@.states[h as int].line_count + lines@.len() <= u64::MAX,
            forall|i: int| 0 <= i < lines@.len() ==> (#[trigger] lines@[i]).secs < 253_402_300_800,
        ensures
            registry_wf(final(self)@),
            final(self)@ == spec_record_lines(old(self)@, h as int, lines@.len() as u64),
            string_views(r@) == spec_batch_lines(lines@),
    {
        let mut out: Vec<String> = Vec::new();
        let mut i: usize = 0;
        while i < lines.len()
            invariant
                i <= lines@.len(),
                forall|k: int| 0 <= k < lines@.len() ==> (#[trigger] lines@[k]).secs < 253_402_300_800,
                out@.len() == i,
                string_views(out@) == spec_batch_lines(lines@).take(i as int),
            decreases lines@.len() - i,
        {
            let l = &lines[i];
            let line = format_session_log_line(l.secs, capnp_level_display(l.level), l.message.as_str());
            let ghost before = out@;
            out.push(line);
            proof {
                assert(out@ =~= before.push(line));
                assert(string_views(out@) =~= spec_batch_lines(lines@).take(i + 1));
            }
            i = i + 1;
        }
        proof {
            assert(spec_batch_lines(lines@).take(lines@.len() as int) =~= spec_batch_lines(lines@));
        }
        self.record_lines(h, lines.len() as u64);
        out
    }
}

/// Closing a session takes it off the live list and appends its summary,
/// with every line recorded for it, to the completed list; nothing else
/// changes.
pub proof fn lemma_close_moves_session_to_completed(m: RegistryModel, h: int, exit_code: i32, duration: Seq<char>)
    requires
        registry_wf(m),
        0 <= h < m.states.len(),
    ensures
        ({
            let m2 = spec_close(m, h, exit_code, duration);
            &&& forall|i: int| 0 <= i < m2.live.len() ==> m2.states[#[trigger] m2.live[i]].uuid != m.states[h].uuid
            &&& m2.completed.len() == m.completed.len() + 1
            &&& m2.completed.last() == spec_closed_summary(m.states[h], exit_code, duration)
            &&& m2.completed.last().line_count == m.states[h].line_count
            &&& m2.states == m.states
        }),
{
    let m2 = spec_close(m, h, exit_code, duration);
    let u = m.states[h].uuid;
    assert forall|i: int| 0 <= i < m2.live.len() implies m2.states[#[trigger] m2.live[i]].uuid != u by {
        match live_slot(m, u) {
            Some(k) => {
                let ii = if i < k { i } else { i + 1 };
                assert(m2.live[i] == m.live[ii]);
                assert(m.states[m.live[k]].uuid == u);
            },
            None => {
                assert(m2.live[i] == m.live[i]);
            },
        }
    }
}

/// A newly opened session is live, with no lines yet, and is listed among
/// the live sessions (before every completed one).
pub proof fn lemma_opened_session_is_listed_live(m: RegistryModel, label: Seq<char>, uuid: Seq<char>, command: Seq<char>)
    requires
        registry_wf(m),
    ensures
        ({
            let m2 = spec_open(m, label, uuid, command);
            let h = m.states.len() as int;
            &&& exists|i: int| 0 <= i < m2.live.len() && #[trigger] m2.live[i] == h
            &&& m2.states[h].line_count == 0
            &&& m2.states[h].uuid == uuid
            &&& spec_list(m2, (m2.live.len() + m2.completed.len()) as int).len() == m2.live.len() + m2.completed.len()
        }),
{
    let m2 = spec_open(m, label, uuid, command);
    let h = m.states.len() as int;
    match live_slot(m, uuid) {
        Some(i) => {
            assert(m2.live[i] == h);
        },
        None => {
            assert(m2.live[m.live.len() as int] == h);
        },
    }
}

} // verus!
