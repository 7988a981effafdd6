use vstd::prelude::*;

use crate::econtab::{kept, lines_of, scan, text_lines, EconTab, INPUT_CAPACITY};
use crate::state::{AddConnection, AddConnectionElements, FIELD_CAPACITY, FormError, Main, MainElements, Screen};
use crate::stringarray::{popped, pushed};

verus! {

/// A key press, as the state machine reads it.
#[derive(Debug, Clone, Copy, PartialEq, Eq, Structural)]
pub enum Key {
    Up,
    Down,
    Left,
    Right,
    Tab,
    BackTab,
    Enter,
    Esc,
    Backspace,
    Char(char),
    Other,
}

/// What the caller has to do after a key press.
#[derive(Debug)]
pub enum Action {
    /// Nothing beyond the change of state.
    Nothing,
    /// Terminate the application.
    Quit,
    /// Transmit `text` on the connection of session `index`.
    Send { index: usize, text: Vec<char> },
    /// Connect to `address` and authenticate with `password`, then report
    /// the outcome with `App::on_connect_result`.
    Connect { name: Vec<char>, address: Vec<char>, password: Vec<char> },
}

/// The text of a bounded field after each character of `t` is pushed in turn.
pub open spec fn pushed_all(s: Seq<char>, t: Seq<char>, cap: nat) -> Seq<char>
    decreases t.len(),
{
    if t.len() == 0 {
        s
    } else {
        pushed(pushed_all(s, t.drop_last(), cap), t.last(), cap)
    }
}

/// The outcome of a connection attempt that the form requested.
#[derive(Debug, Clone, Copy, PartialEq, Eq, Structural)]
pub enum ConnectResult {
    BadAddress,
    Failed,
    Connected,
}

/// Keys that move the focus one step back.
pub open spec fn is_prev_key(k: Key) -> bool {
    k == Key::Up || k == Key::BackTab
}

/// Keys that move the focus one step forward.
pub open spec fn is_next_key(k: Key) -> bool {
    k == Key::Down || k == Key::Tab
}

/// The session shown after a move to the left among `n` sessions, wrapping
/// from the first to the last.
pub open spec fn tab_left(c: usize, n: nat) -> usize {
    if 0 < c < n {
        (c - 1) as usize
    } else {
        (n - 1) as usize
    }
}

/// The session shown after a move to the right among `n` sessions, wrapping
/// from the last to the first.
pub open spec fn tab_right(c: usize, n: nat) -> usize {
    if c + 1 < n {
        (c + 1) as usize
    } else {
        0
    }
}

/// Session `j` was reported dead: it has a liveness report and the report is false.
pub open spec fn is_dead(alive: Seq<bool>, j: int) -> bool {
    0 <= j < alive.len() && !alive[j]
}

/// The sessions among `t[lo..hi]` that were not reported dead, in order.
pub open spec fn alive_in(t: Seq<EconTab>, alive: Seq<bool>, lo: int, hi: int) -> Seq<EconTab>
    decreases hi - lo,
{
    if lo >= hi {
        Seq::empty()
    } else {
        (if is_dead(alive, lo) {
            Seq::empty()
        } else {
            seq![t[lo]]
        }) + alive_in(t, alive, lo + 1, hi)
    }
}

/// The positions among `lo..hi` that were not reported dead, in increasing order.
pub open spec fn alive_indices(alive: Seq<bool>, lo: int, hi: int) -> Seq<int>
    decreases hi - lo,
{
    if lo >= hi {
        Seq::empty()
    } else {
        (if is_dead(alive, lo) {
            Seq::empty()
        } else {
            seq![lo]
        }) + alive_indices(alive, lo + 1, hi)
    }
}

/// The positions among `lo..hi` that were reported dead, highest first.
pub open spec fn condemned(alive: Seq<bool>, lo: int, hi: int) -> Seq<usize>
    decreases hi - lo,
{
    if lo >= hi {
        Seq::empty()
    } else {
        condemned(alive, lo + 1, hi) + if is_dead(alive, lo) {
            seq![lo as usize]
        } else {
            Seq::empty()
        }
    }
}

/// The sessions kept by a poll pass over `t` with liveness reports `alive`.
pub open spec fn survivors(t: Seq<EconTab>, alive: Seq<bool>) -> Seq<EconTab> {
    alive_in(t, alive, 0, t.len() as int)
}

proof fn lemma_alive_in(t: Seq<EconTab>, alive: Seq<bool>, lo: int, hi: int)
    requires
        0 <= lo <= hi <= t.len(),
    ensures
        ({
            let s = alive_in(t, alive, lo, hi);
            let ix = alive_indices(alive, lo, hi);
            &&& s.len() == ix.len()
            &&& forall|k: int| 0 <= k < ix.len() ==> lo <= #[trigger] ix[k] < hi
                && !is_dead(alive, ix[k]) && s[k] == t[ix[k]]
            &&& forall|k1: int, k2: int| 0 <= k1 < k2 < ix.len() ==> ix[k1] < ix[k2]
            &&& forall|j: int| lo <= j < hi && !is_dead(alive, j) ==> ix.contains(j)
        }),
    decreases hi - lo,
{
    if lo < hi {
        lemma_alive_in(t, alive, lo + 1, hi);
        let s = alive_in(t, alive, lo + 1, hi);
        let ix = alive_indices(alive, lo + 1, hi);
        if !is_dead(alive, lo) {
            let ix2 = alive_indices(alive, lo, hi);
            assert(ix2 == seq![lo] + ix);
            assert forall|j: int| lo <= j < hi && !is_dead(alive, j) implies ix2.contains(j) by {
                if j == lo {
                    assert(ix2[0] == lo);
                } else {
                    let k = choose|k: int| 0 <= k < ix.len() && ix[k] == j;
                    assert(ix2[k + 1] == j);
                }
            }
        } else {
            assert(alive_indices(alive, lo, hi) =~= ix);
            assert(alive_in(t, alive, lo, hi) =~= s);
        }
    }
}

/// A poll pass keeps exactly the sessions that were not reported dead, in
/// the order they had: the `k`-th survivor is the session at the `k`-th
/// position not reported dead.
pub proof fn lemma_poll_keeps_live_in_order(t: Seq<EconTab>, alive: Seq<bool>)
    ensures
        ({
            let s = survivors(t, alive);
            let ix = alive_indices(alive, 0, t.len() as int);
            &&& s.len() == ix.len()
            &&& forall|k: int| 0 <= k < ix.len() ==> 0 <= #[trigger] ix[k] < t.len()
                && !is_dead(alive, ix[k]) && s[k] == t[ix[k]]
            &&& forall|k1: int, k2: int| 0 <= k1 < k2 < ix.len() ==> ix[k1] < ix[k2]
            &&& forall|j: int| 0 <= j < t.len() && !is_dead(alive, j) ==> ix.contains(j)
        }),
{
    lemma_alive_in(t, alive, 0, t.len() as int);
}

/// The dashboard as it is first shown: focus on the add button, first session.
pub open spec fn fresh_main(s: Screen) -> bool {
    s == Screen::Main(Main { active: MainElements::Add, connection: 0 })
}

/// An empty add-connection form, focus on the name, no error.
pub open spec fn fresh_form(s: Screen) -> bool {
    match s {
        Screen::AddConnection(d) => d.active == AddConnectionElements::Name && d.error.is_none() && !d.pending && forall|i: int|
            0 <= i < 3 ==> (#[trigger] d.fields[i])@ == Seq::<char>::empty(),
        _ => false,
    }
}

/// `t1` is `t0` but for the session at `c`.
pub open spec fn same_but(t0: Seq<EconTab>, t1: Seq<EconTab>, c: int) -> bool {
    t1.len() == t0.len() && forall|j: int|
        0 <= j < t0.len() && j != c ==> #[trigger] t1[j] == t0[j]
}

/// `b` is `a` with only its command line changed, to `input`.
pub open spec fn input_set(a: EconTab, b: EconTab, input: Seq<char>) -> bool {
    b.name == a.name && b.messages == a.messages && b.scroll == a.scroll && b.buffer@ == input
}

/// `b` is `a` with only its scroll offset changed, to `scroll`.
pub open spec fn scroll_set(a: EconTab, b: EconTab, scroll: usize) -> bool {
    b.name == a.name && b.messages == a.messages && b.buffer == a.buffer && b.scroll == scroll
}

/// What a key does on the dashboard `m`, with sessions `t0`: the screen `s1`,
/// the sessions `t1` and the action `r` that follow.
pub open spec fn main_step(
    m: Main,
    t0: Seq<EconTab>,
    key: Key,
    s1: Screen,
    t1: Seq<EconTab>,
    r: Action,
) -> bool {
    let n = t0.len();
    let c = m.connection;
    if is_prev_key(key) {
        s1 == Screen::Main(Main { active: m.active.spec_prev(), connection: c }) && t1 == t0
            && r is Nothing
    } else if is_next_key(key) {
        s1 == Screen::Main(Main { active: m.active.spec_next(), connection: c }) && t1 == t0
            && r is Nothing
    } else if key == Key::Esc {
        s1 == Screen::Exit && t1 == t0 && r is Nothing
    } else {
        match m.active {
            MainElements::Connections => {
                let c1 = if n > 0 && key == Key::Left {
                    tab_left(c, n)
                } else if n > 0 && key == Key::Right {
                    tab_right(c, n)
                } else {
                    c
                };
                s1 == Screen::Main(Main { active: m.active, connection: c1 }) && t1 == t0
                    && r is Nothing
            },
            MainElements::Console => {
                s1 == Screen::Main(m) && r is Nothing && if c < n && key == Key::Left {
                    same_but(t0, t1, c as int) && scroll_set(
                        t0[c as int],
                        t1[c as int],
                        if t0[c as int].scroll > 0 {
                            (t0[c as int].scroll - 1) as usize
                        } else {
                            t0[c as int].scroll
                        },
                    )
                } else if c < n && key == Key::Right {
                    same_but(t0, t1, c as int) && scroll_set(
                        t0[c as int],
                        t1[c as int],
                        if t0[c as int].scroll < t0[c as int].messages@.len() {
                            (t0[c as int].scroll + 1) as usize
                        } else {
                            t0[c as int].scroll
                        },
                    )
                } else {
                    t1 == t0
                }
            },
            MainElements::Input => {
                s1 == Screen::Main(m) && if c < n {
                    let b = t0[c as int].buffer@;
                    match key {
                        Key::Char(ch) => same_but(t0, t1, c as int) && input_set(
                            t0[c as int],
                            t1[c as int],
                            pushed(b, ch, INPUT_CAPACITY as nat),
                        ) && r is Nothing,
                        Key::Backspace => same_but(t0, t1, c as int) && input_set(
                            t0[c as int],
                            t1[c as int],
                            popped(b),
                        ) && r is Nothing,
                        Key::Enter => same_but(t0, t1, c as int) && input_set(
                            t0[c as int],
                            t1[c as int],
                            Seq::empty(),
                        ) && match r {
                            Action::Send { index, text } => index == c && text@ == b,
                            _ => false,
                        },
                        _ => t1 == t0 && r is Nothing,
                    }
                } else {
                    t1 == t0 && r is Nothing
                }
            },
            MainElements::Add => {
                t1 == t0 && r is Nothing && if key == Key::Enter {
                    fresh_form(s1)
                } else {
                    s1 == Screen::Main(m)
                }
            },
        }
    }
}

/// What a key does on the add-connection form `d`. The sessions never change.
pub open spec fn form_step(d: AddConnection, key: Key, s1: Screen, r: Action) -> bool {
    if is_prev_key(key) {
        s1 == Screen::AddConnection(AddConnection { active: d.active.spec_prev(), fields: d.fields, error: d.error, pending: d.pending })
            && r is Nothing
    } else if is_next_key(key) {
        s1 == Screen::AddConnection(AddConnection { active: d.active.spec_next(), fields: d.fields, error: d.error, pending: d.pending })
            && r is Nothing
    } else if key == Key::Esc {
        fresh_main(s1) && r is Nothing
    } else {
        match d.active.spec_field_index() {
            None => if key == Key::Enter {
                s1 == Screen::AddConnection(confirmed(d, parses_as_endpoint(d.fields[1]@)))
                    && confirm_action(d, parses_as_endpoint(d.fields[1]@), r)
            } else {
                s1 == Screen::AddConnection(d) && r is Nothing
            },
            Some(f) => r is Nothing && match key {
                Key::Char(ch) => form_edited(d, s1, f, pushed(d.fields[f]@, ch, FIELD_CAPACITY as nat)),
                Key::Backspace => form_edited(d, s1, f, popped(d.fields[f]@)),
                _ => s1 == Screen::AddConnection(d),
            },
        }
    }
}

/// The form after its button is pressed: when the address is well formed,
/// any earlier error cleared and a connection awaited; otherwise the bad
/// address recorded and nothing awaited. The form stays on screen either way.
pub open spec fn confirmed(d: AddConnection, address_ok: bool) -> AddConnection {
    AddConnection {
            active: d.active,
            fields: d.fields,
            error: if address_ok {
                None
            } else {
                Some(FormError::BadAddress)
            },
        pending: address_ok,
    }
}

/// The action that follows pressing the button of form `d`: a request to
/// connect with the form's contents when the address is well formed, else
/// nothing.
pub open spec fn confirm_action(d: AddConnection, address_ok: bool, r: Action) -> bool {
    if address_ok {
        match r {
            Action::Connect { name, address, password } => name@ == d.fields[0]@ && address@
                == d.fields[1]@ && password@ == d.fields[2]@,
            _ => false,
        }
    } else {
        r is Nothing
    }
}

/// `s1` is the form `d` with field `f` now holding `text`.
pub open spec fn form_edited(d: AddConnection, s1: Screen, f: int, text: Seq<char>) -> bool {
    match s1 {
        Screen::AddConnection(e) => e.active == d.active && e.error == d.error && e.pending == d.pending && e.fields[f]@ == text && forall|j: int|
            0 <= j < 3 && j != f ==> #[trigger] e.fields[j] == d.fields[j],
        _ => false,
    }
}

/// What a key does on screen `s0` with sessions `t0`.
pub open spec fn key_step(
    s0: Screen,
    t0: Seq<EconTab>,
    key: Key,
    s1: Screen,
    t1: Seq<EconTab>,
    r: Action,
) -> bool {
    match s0 {
        Screen::Welcome => t1 == t0 && r is Nothing && if key == Key::Enter {
            fresh_main(s1)
        } else {
            s1 == s0
        },
        Screen::Main(m) => main_step(m, t0, key, s1, t1, r),
        Screen::AddConnection(d) => t1 == t0 && form_step(d, key, s1, r),
        Screen::Exit => t1 == t0 && if key == Key::Esc {
            fresh_main(s1) && r is Nothing
        } else if key == Key::Enter {
            s1 == s0 && r is Quit
        } else {
            s1 == s0 && r is Nothing
        },
    }
}

/// Four presses of a focus key, all forward or all backward, bring the focus
/// of the dashboard or of the form back to where it was, and change nothing
/// else.
pub proof fn lemma_focus_keys_cycle(
    s0: Screen,
    s1: Screen,
    s2: Screen,
    s3: Screen,
    s4: Screen,
    t0: Seq<EconTab>,
    t1: Seq<EconTab>,
    t2: Seq<EconTab>,
    t3: Seq<EconTab>,
    t4: Seq<EconTab>,
    key: Key,
    r1: Action,
    r2: Action,
    r3: Action,
    r4: Action,
)
    requires
        s0 is Main || s0 is AddConnection,
        is_prev_key(key) || is_next_key(key),
        key_step(s0, t0, key, s1, t1, r1),
        key_step(s1, t1, key, s2, t2, r2),
        key_step(s2, t2, key, s3, t3, r3),
        key_step(s3, t3, key, s4, t4, r4),
    ensures
        s4 == s0,
        t4 == t0,
{
    match s0 {
        Screen::Main(m) => {
            crate::state::lemma_main_focus_cycle(m.active);
            reveal_with_fuel(MainElements::forward, 5);
            reveal_with_fuel(MainElements::backward, 5);
        },
        Screen::AddConnection(d) => {
            crate::state::lemma_form_focus_cycle(d.active);
            reveal_with_fuel(AddConnectionElements::forward, 5);
            reveal_with_fuel(AddConnectionElements::backward, 5);
        },
        _ => {},
    }
}

/// With no session open, left and right on the session tabs change nothing.
pub proof fn lemma_no_sessions_tab_keys(m: Main, key: Key, s1: Screen, t1: Seq<EconTab>, r: Action)
    requires
        m.active == MainElements::Connections,
        key == Key::Left || key == Key::Right,
        key_step(Screen::Main(m), Seq::empty(), key, s1, t1, r),
    ensures
        s1 == Screen::Main(m),
        t1 == Seq::<EconTab>::empty(),
        r is Nothing,
{
}

/// A command sent from the command line of a session, whose connection
/// stays alive and echoes it back, with or without a closing line feed, is
/// the last line of that session's log after the next poll pass.
/// `t1` are the sessions after Enter is pressed; `t2` after the removal step
/// of the poll pass with liveness reports `alive`, in which the session is at
/// position `k`; `t3` after the echo `echo` is received there.
pub proof fn lemma_echo_round_trip(
    m: Main,
    t0: Seq<EconTab>,
    s1: Screen,
    t1: Seq<EconTab>,
    r: Action,
    alive: Seq<bool>,
    t2: Seq<EconTab>,
    k: int,
    echo: Seq<char>,
    t3: Seq<EconTab>,
)
    requires
        m.active == MainElements::Input,
        m.connection < t0.len(),
        t0[m.connection as int].buffer@.len() > 0,
        !t0[m.connection as int].buffer@.contains('\n'),
        key_step(Screen::Main(m), t0, Key::Enter, s1, t1, r),
        !is_dead(alive, m.connection as int),
        t2 == survivors(t1, alive),
        0 <= k < alive_indices(alive, 0, t1.len() as int).len(),
        alive_indices(alive, 0, t1.len() as int)[k] == m.connection,
        match r {
            Action::Send { text, .. } => echo == text@ || (echo == text@.push('\n')
                && text@.last() != '\r'),
            _ => true,
        },
        t3.len() == t2.len(),
        t3[k].name == t2[k].name,
        lines_of(t3[k].messages@) == lines_of(t2[k].messages@) + text_lines(echo),
    ensures
        match r {
            Action::Send { index, text } => {
                &&& index == m.connection
                &&& text@ == t0[m.connection as int].buffer@
                &&& t2[k] == t1[m.connection as int]
                &&& t3[k].name == t0[m.connection as int].name
                &&& lines_of(t3[k].messages@).last() == text@
            },
            _ => false,
        },
{
    let b = t0[m.connection as int].buffer@;
    lemma_alive_in(t1, alive, 0, t1.len() as int);
    lemma_single_line(b);
    if echo != b {
        lemma_line_fed(b);
    }
}

/// A non-empty text without a line feed is one line.
pub proof fn lemma_single_line(b: Seq<char>)
    requires
        b.len() > 0,
        !b.contains('\n'),
    ensures
        text_lines(b) == seq![b],
{
    lemma_scan_no_feed(b, b.len(), b.len());
    assert(b.subrange(0, b.len() as int) =~= b);
    assert(Seq::<Seq<char>>::empty() + seq![b] =~= seq![b]);
}

/// A non-empty text without a line feed, followed by one and not ending in a
/// carriage return, is one line.
pub proof fn lemma_line_fed(b: Seq<char>)
    requires
        b.len() > 0,
        !b.contains('\n'),
        b.last() != '\r',
    ensures
        text_lines(b.push('\n')) == seq![b],
{
    let e = b.push('\n');
    assert forall|j: int| 0 <= j < b.len() implies e[j] != '\n' by {
        assert(e[j] == b[j]);
        if b[j] == '\n' {
            assert(b.contains('\n'));
        }
    }
    lemma_scan_no_feed(e, b.len(), b.len());
    assert(e.subrange(0, b.len() as int) =~= b);
    assert(scan(e, e.len()) == (Seq::<Seq<char>>::empty() + seq![b], Seq::<char>::empty()));
    assert(Seq::<Seq<char>>::empty() + seq![b] + kept(Seq::<char>::empty()) =~= seq![b]);
}

proof fn lemma_scan_no_feed(t: Seq<char>, m: nat, i: nat)
    requires
        i <= m <= t.len(),
        forall|j: int| 0 <= j < m ==> t[j] != '\n',
    ensures
        scan(t, i) == (Seq::<Seq<char>>::empty(), t.subrange(0, i as int)),
    decreases i,
{
    if i > 0 {
        lemma_scan_no_feed(t, m, (i - 1) as nat);
        assert(t.subrange(0, i - 1).push(t[i - 1]) =~= t.subrange(0, i as int));
    } else {
        assert(t.subrange(0, 0) =~= Seq::<char>::empty());
    }
}

/// Whether `s` parses as a socket address, `host:port` with an IPv4 or
/// bracketed IPv6 address as host.
pub uninterp spec fn parses_as_endpoint(s: Seq<char>) -> bool;

/// Relies on `<core::net::SocketAddr as FromStr>::from_str`: whether the
/// text parses as a socket address, which depends on the text alone.
#[verifier::external_body]
fn is_valid_address(a: &String) -> (r: bool)
    ensures
        r == parses_as_endpoint(a@),
{
    a.parse::<core::net::SocketAddr>().is_ok()
}

/// Presses the button of form `d`, given whether its address is well formed:
/// the form stays open, with the bad address recorded or any earlier error
/// cleared, and a connection is requested only for a well-formed address.
pub fn confirm_form(d: &AddConnection, address_ok: bool) -> (r: (AddConnection, Action))
    ensures
        r.0 == confirmed(*d, address_ok),
        confirm_action(*d, address_ok, r.1),
{
    if address_ok {
        (AddConnection { active: d.active, fields: d.fields, error: None, pending: true }, connect_request(d))
    } else {
        (
            AddConnection { active: d.active, fields: d.fields, error: Some(FormError::BadAddress), pending: false },
            Action::Nothing,
        )
    }
}

/// The request to connect with the contents of form `d`.
fn connect_request(d: &AddConnection) -> (r: Action)
    ensures
        confirm_action(*d, true, r),
{
    Action::Connect {
        name: d.fields[0].chars(),
        address: d.fields[1].chars(),
        password: d.fields[2].chars(),
    }
}

/// The whole application: the screen shown and the open sessions, in the
/// order in which they were opened.
pub struct App {
    current_screen: Screen,
    econ_tabs: Vec<EconTab>,
}

impl App {
    pub closed spec fn spec_screen(&self) -> Screen {
        self.current_screen
    }

    pub closed spec fn spec_tabs(&self) -> Seq<EconTab> {
        self.econ_tabs@
    }

    /// The shown session is one that exists (or the first, while there is
    /// none), and each session's scroll offset lies within its log.
    pub open spec fn wf(&self) -> bool {
        (match self.spec_screen() {
            Screen::Main(m) => if self.spec_tabs().len() == 0 {
                m.connection == 0
            } else {
                m.connection < self.spec_tabs().len()
            },
            _ => true,
        }) && forall|j: int| 0 <= j < self.spec_tabs().len() ==> (#[trigger] self.spec_tabs()[j]).wf()
    }

    pub fn new() -> (r: Self)
        ensures
            r.spec_screen() == Screen::Welcome,
            r.spec_tabs().len() == 0,
            r.wf(),
    {
        Self { current_screen: Screen::Welcome, econ_tabs: Vec::new() }
    }

    pub fn screen(&self) -> (r: Screen)
        ensures
            r == self.spec_screen(),
    {
        self.current_screen
    }

    pub fn tabs(&self) -> (r: &Vec<EconTab>)
        ensures
            r@ == self.spec_tabs(),
    {
        &self.econ_tabs
    }

    /// Handles one key press and says what the caller has to do next.
    pub fn on_key(&mut self, key: Key) -> (r: Action)
        ensures
            key_step(old(self).spec_screen(), old(self).spec_tabs(), key, final(self).spec_screen(), final(self).spec_tabs(), r),
            old(self).wf() ==> final(self).wf(),
    {
        let ghost t0 = self.econ_tabs@;
        let r = match self.current_screen {
            Screen::Welcome => {
                if key == Key::Enter {
                    self.current_screen = Screen::Main(Main::new());
                }
                Action::Nothing
            },
            Screen::Main(m) => self.on_key_main(m, key),
            Screen::AddConnection(d) => {
                let (s, r) = Self::on_key_form(d, key);
                self.current_screen = s;
                r
            },
            Screen::Exit => {
                if key == Key::Esc {
                    self.current_screen = Screen::Main(Main::new());
                    Action::Nothing
                } else if key == Key::Enter {
                    Action::Quit
                } else {
                    Action::Nothing
                }
            },
        };
        proof {
            if !(self.current_screen is Main) {
                assert(self.econ_tabs@ == t0);
            }
        }
        r
    }

    fn on_key_main(&mut self, m: Main, key: Key) -> (r: Action)
        requires
            old(self).spec_screen() == Screen::Main(m),
        ensures
            main_step(m, old(self).spec_tabs(), key, final(self).spec_screen(), final(self).spec_tabs(), r),
            old(self).wf() ==> final(self).wf(),
    {
        let n = self.econ_tabs.len();
        let c = m.connection;
        if key == Key::Up || key == Key::BackTab {
            self.current_screen = Screen::Main(Main { active: m.active.prev(), connection: c });
            return Action::Nothing;
        }
        if key == Key::Down || key == Key::Tab {
            self.current_screen = Screen::Main(Main { active: m.active.next(), connection: c });
            return Action::Nothing;
        }
        if key == Key::Esc {
            self.current_screen = Screen::Exit;
            return Action::Nothing;
        }
        match m.active {
            MainElements::Connections => {
                if n > 0 && key == Key::Left {
                    let c1 = if 0 < c && c < n { c - 1 } else { n - 1 };
                    self.current_screen = Screen::Main(Main { active: m.active, connection: c1 });
                } else if n > 0 && key == Key::Right {
                    let c1 = if c < n - 1 { c + 1 } else { 0 };
                    self.current_screen = Screen::Main(Main { active: m.active, connection: c1 });
                }
                Action::Nothing
            },
            MainElements::Console => {
                if c < n && key == Key::Left {
                    self.econ_tabs[c].scroll_back();
                } else if c < n && key == Key::Right {
                    self.econ_tabs[c].scroll_forward();
                }
                Action::Nothing
            },
            MainElements::Input => {
                if c < n {
                    match key {
                        Key::Char(ch) => {
                            self.econ_tabs[c].type_char(ch);
                            Action::Nothing
                        },
                        Key::Backspace => {
                            self.econ_tabs[c].erase_char();
                            Action::Nothing
                        },
                        Key::Enter => {
                            let text = self.econ_tabs[c].take_input();
                            Action::Send { index: c, text }
                        },
                        _ => Action::Nothing,
                    }
                } else {
                    Action::Nothing
                }
            },
            MainElements::Add => {
                if key == Key::Enter {
                    self.current_screen = Screen::AddConnection(AddConnection::new());
                }
                Action::Nothing
            },
        }
    }

    fn on_key_form(d: AddConnection, key: Key) -> (r: (Screen, Action))
        ensures
            form_step(d, key, r.0, r.1),
    {
        if key == Key::Up || key == Key::BackTab {
            return (Screen::AddConnection(AddConnection { active: d.active.prev(), fields: d.fields, error: d.error, pending: d.pending }), Action::Nothing);
        }
        if key == Key::Down || key == Key::Tab {
            return (Screen::AddConnection(AddConnection { active: d.active.next(), fields: d.fields, error: d.error, pending: d.pending }), Action::Nothing);
        }
        if key == Key::Esc {
            return (Screen::Main(Main::new()), Action::Nothing);
        }
        match d.active.field_index() {
            None => {
                if key == Key::Enter {
                    let r = Self::process_connection_data(&d);
                    let address_ok = match r {
                        Action::Connect { .. } => true,
                        _ => false,
                    };
                    let e = AddConnection {
                        active: d.active,
                        fields: d.fields,
                        error: if address_ok { None } else { Some(FormError::BadAddress) },
                        pending: address_ok,
                    };
                    (Screen::AddConnection(e), r)
                } else {
                    (Screen::AddConnection(d), Action::Nothing)
                }
            },
            Some(f) => {
                let mut e = d;
                let mut field = e.fields[f];
                match key {
                    Key::Char(ch) => field.push(ch),
                    Key::Backspace => field.pop(),
                    _ => {},
                }
                e.fields[f] = field;
                match key {
                    Key::Char(_) | Key::Backspace => (Screen::AddConnection(e), Action::Nothing),
                    _ => (Screen::AddConnection(d), Action::Nothing),
                }
            },
        }
    }

    /// The request to open a session from the contents of the form: none
    /// when the address is malformed, so that no connection is attempted.
    pub fn process_connection_data(d: &AddConnection) -> (r: Action)
        ensures
            confirm_action(*d, parses_as_endpoint(d.fields[1]@), r),
    {
        if is_valid_address(&d.fields[1].to_string()) {
            connect_request(d)
        } else {
            Action::Nothing
        }
    }
    /// The removal step of a poll pass. `alive` holds the liveness reported
    /// for each session, by position; a session without a report is kept.
    /// Removes every session reported dead, highest position first, keeps
    /// the others in order, and returns the positions removed in the order in
    /// which they were removed. The shown session is moved back into range.
    pub fn on_tick(&mut self, alive: &Vec<bool>) -> (r: Vec<usize>)
        ensures
            final(self).spec_tabs() == survivors(old(self).spec_tabs(), alive@),
            r@ == condemned(alive@, 0, old(self).spec_tabs().len() as int),
            final(self).spec_screen() == match old(self).spec_screen() {
                Screen::Main(m) => Screen::Main(Main {
                    active: m.active,
                    connection: if m.connection < final(self).spec_tabs().len() {
                        m.connection
                    } else if final(self).spec_tabs().len() > 0 {
                        (final(self).spec_tabs().len() - 1) as usize
                    } else {
                        0
                    },
                }),
                s => s,
            },
            old(self).wf() ==> final(self).wf(),
    {
        let ghost t0 = self.econ_tabs@;
        let ghost s0 = self.current_screen;
        let ghost was_wf = self.wf();
        let n = self.econ_tabs.len();
        let mut removed: Vec<usize> = Vec::new();
        let mut j: usize = n;
        while j > 0
            invariant
                n == t0.len(),
                j <= n,
                self.econ_tabs@ == t0.subrange(0, j as int) + alive_in(t0, alive@, j as int, n as int),
                removed@ == condemned(alive@, j as int, n as int),
                self.current_screen == s0,
            decreases j,
        {
            j = j - 1;
            let dead = j < alive.len() && !alive[j];
            let ghost before = self.econ_tabs@;
            if dead {
                self.econ_tabs.remove(j);
                removed.push(j);
            }
            assert(self.econ_tabs@ =~= t0.subrange(0, j as int) + alive_in(t0, alive@, j as int, n as int));
        }
        assert(self.econ_tabs@ =~= alive_in(t0, alive@, 0, n as int));
        proof {
            lemma_alive_in(t0, alive@, 0, n as int);
            if was_wf {
                let ix = alive_indices(alive@, 0, n as int);
                assert forall|k: int| 0 <= k < self.econ_tabs@.len() implies (#[trigger] self.econ_tabs@[k]).wf() by {
                    assert(self.econ_tabs@[k] == t0[ix[k]]);
                }
            }
        }
        let len = self.econ_tabs.len();
        match self.current_screen {
            Screen::Main(m) => {
                if m.connection >= len {
                    let c = if len > 0 { len - 1 } else { 0 };
                    self.current_screen = Screen::Main(Main { active: m.active, connection: c });
                }
            },
            _ => {},
        }
        removed
    }

    /// The receiving step of a poll pass for session `index`: appends the
    /// non-empty lines of `text` to its log. Without such a session nothing
    /// changes.
    pub fn receive(&mut self, index: usize, text: &Vec<char>)
        ensures
            final(self).spec_screen() == old(self).spec_screen(),
            if index < old(self).spec_tabs().len() {
                &&& same_but(old(self).spec_tabs(), final(self).spec_tabs(), index as int)
                &&& lines_of(final(self).spec_tabs()[index as int].messages@) == lines_of(
                    old(self).spec_tabs()[index as int].messages@,
                ) + text_lines(text@)
                &&& final(self).spec_tabs()[index as int].name == old(self).spec_tabs()[index as int].name
                &&& final(self).spec_tabs()[index as int].buffer == old(self).spec_tabs()[index as int].buffer
                &&& final(self).spec_tabs()[index as int].scroll == old(self).spec_tabs()[index as int].scroll
            } else {
                final(self).spec_tabs() == old(self).spec_tabs()
            },
            old(self).wf() ==> final(self).wf(),
    {
        if index < self.econ_tabs.len() {
            self.econ_tabs[index].receive(text);
        }
    }

    /// Registers a session that has just been connected, at the end of the
    /// order, and shows it if the dashboard is on screen.
    pub fn add_tab(&mut self, name: Vec<char>)
        ensures
            final(self).spec_tabs().len() == old(self).spec_tabs().len() + 1,
            final(self).spec_tabs().subrange(0, old(self).spec_tabs().len() as int) == old(self).spec_tabs(),
            ({
                let t = final(self).spec_tabs().last();
                &&& t.name@ == name@
                &&& t.messages@.len() == 0
                &&& t.buffer@ == Seq::<char>::empty()
                &&& t.scroll == 0
            }),
            final(self).spec_screen() == match old(self).spec_screen() {
                Screen::Main(m) => Screen::Main(Main { active: m.active, connection: old(self).spec_tabs().len() as usize }),
                s => s,
            },
            old(self).wf() ==> final(self).wf(),
    {
        let ghost t0 = self.econ_tabs@;
        let index = self.econ_tabs.len();
        self.econ_tabs.push(EconTab::new(name));
        assert(self.econ_tabs@.subrange(0, t0.len() as int) =~= t0);
        match self.current_screen {
            Screen::Main(m) => {
                self.current_screen = Screen::Main(Main { active: m.active, connection: index });
            },
            _ => {},
        }
    }

    /// Takes the outcome of the connection that the form on screen asked
    /// for, and says whether a session was added. On success the session is
    /// appended, named after the form, and the dashboard shows it; on failure
    /// the form stays open with the error recorded and no session is added.
    /// Without a connection awaited by the form on screen nothing changes.
    pub fn on_connect_result(&mut self, res: ConnectResult) -> (added: bool)
        ensures
            match old(self).spec_screen() {
                Screen::AddConnection(d) if d.pending => if res is Connected {
                    &&& added
                    &&& final(self).spec_tabs().len() == old(self).spec_tabs().len() + 1
                    &&& final(self).spec_tabs().subrange(0, old(self).spec_tabs().len() as int) == old(self).spec_tabs()
                    &&& final(self).spec_tabs().last().name@ == d.fields[0]@
                    &&& final(self).spec_tabs().last().messages@.len() == 0
                    &&& final(self).spec_tabs().last().buffer@ == Seq::<char>::empty()
                    &&& final(self).spec_tabs().last().scroll == 0
                    &&& final(self).spec_screen() == Screen::Main(
                        Main { active: MainElements::Add, connection: old(self).spec_tabs().len() as usize },
                    )
                } else {
                    &&& !added
                    &&& final(self).spec_tabs() == old(self).spec_tabs()
                    &&& final(self).spec_screen() == Screen::AddConnection(AddConnection {
                        active: d.active,
                        fields: d.fields,
                        error: Some(if res is BadAddress { FormError::BadAddress } else { FormError::Failed }),
                        pending: false,
                    })
                },
                s => !added && final(self).spec_screen() == s && final(self).spec_tabs() == old(self).spec_tabs(),
            },
            old(self).wf() ==> final(self).wf(),
    {
        match self.current_screen {
            Screen::AddConnection(d) => {
                if !d.pending {
                    return false;
                }
                match res {
                    ConnectResult::Connected => {
                        let index = self.econ_tabs.len();
                        self.add_tab(d.fields[0].chars());
                        self.current_screen = Screen::Main(Main { active: MainElements::Add, connection: index });
                        true
                    },
                    ConnectResult::BadAddress => {
                        self.current_screen = Screen::AddConnection(
                            AddConnection { active: d.active, fields: d.fields, error: Some(FormError::BadAddress), pending: false },
                        );
                        false
                    },
                    ConnectResult::Failed => {
                        self.current_screen = Screen::AddConnection(
                            AddConnection { active: d.active, fields: d.fields, error: Some(FormError::Failed), pending: false },
                        );
                        false
                    },
                }
            },
            _ => false,
        }
    }

    /// Puts back on the command line of session `index` a text whose
    /// transmission failed, after what is there already, as far as it fits.
    pub fn restore_input(&mut self, index: usize, text: &Vec<char>)
        ensures
            final(self).spec_screen() == old(self).spec_screen(),
            if index < old(self).spec_tabs().len() {
                &&& same_but(old(self).spec_tabs(), final(self).spec_tabs(), index as int)
                &&& input_set(
                    old(self).spec_tabs()[index as int],
                    final(self).spec_tabs()[index as int],
                    pushed_all(old(self).spec_tabs()[index as int].buffer@, text@, INPUT_CAPACITY as nat),
                )
            } else {
                final(self).spec_tabs() == old(self).spec_tabs()
            },
            old(self).wf() ==> final(self).wf(),
    {
        if index < self.econ_tabs.len() {
            let ghost t0 = self.econ_tabs@;
            let ghost s0 = self.current_screen;
            let mut i: usize = 0;
            while i < text.len()
                invariant
                    self.current_screen == s0,
                    index < t0.len(),
                    i <= text.len(),
                    same_but(t0, self.econ_tabs@, index as int),
                    input_set(t0[index as int], self.econ_tabs@[index as int], pushed_all(t0[index as int].buffer@, text@.subrange(0, i as int), INPUT_CAPACITY as nat)),
                decreases text.len() - i,
            {
                self.econ_tabs[index].type_char(text[i]);
                assert(text@.subrange(0, i + 1).drop_last() =~= text@.subrange(0, i as int));
                assert(text@.subrange(0, i + 1).last() == text@[i as int]);
                i = i + 1;
            }
            assert(text@.subrange(0, i as int) =~= text@);
        }
    }
}

} // verus!
