use vstd::prelude::*;

use crate::stringarray::StringArray;

verus! {

/// Capacity of each field of the add-connection form.
pub const FIELD_CAPACITY: usize = 64;

/// The screen shown, each with the state that belongs to it.
#[derive(Debug, Clone, Copy)]
pub enum Screen {
    Welcome,
    Main(Main),
    AddConnection(AddConnection),
    Exit,
}

/// The dashboard: which panel has the focus, and which session is shown.
#[derive(Debug, Clone, Copy)]
pub struct Main {
    pub active: MainElements,
    pub connection: usize,
}

impl Main {
    pub fn new() -> (r: Self)
        ensures
            r.active == MainElements::Add,
            r.connection == 0,
    {
        Self { active: MainElements::Add, connection: 0 }
    }
}

/// Why the last confirmation of the form did not open a session.
#[derive(Debug, Clone, Copy, PartialEq, Eq, Structural)]
pub enum FormError {
    /// The address is not of the form `host:port` with an IP address as host.
    BadAddress,
    /// Connecting or authenticating failed.
    Failed,
}

/// The form that collects a name, an address and a password, with the
/// outcome of its last confirmation if that failed, and whether a connection
/// it asked for is still awaiting its outcome.
#[derive(Debug, Clone, Copy)]
pub struct AddConnection {
    pub active: AddConnectionElements,
    pub fields: [StringArray<FIELD_CAPACITY>; 3],
    pub error: Option<FormError>,
    pub pending: bool,
}

impl AddConnection {
    pub fn new() -> (r: Self)
        ensures
            r.active == AddConnectionElements::Name,
            r.error.is_none(),
            !r.pending,
            forall|i: int| 0 <= i < 3 ==> (#[trigger] r.fields[i])@ == Seq::<char>::empty(),
    {
        let empty = StringArray::<FIELD_CAPACITY>::new();
        let r = Self { active: AddConnectionElements::Name, fields: [empty, empty, empty], error: None, pending: false };
        assert(r.fields@ =~= seq![empty, empty, empty]);
        r
    }
}

/// The panels of the dashboard, in focus order.
#[derive(Debug, Clone, Copy, PartialEq, Eq, Structural, PartialOrd, Ord)]
pub enum MainElements {
    Connections,
    Console,
    Input,
    Add,
}

impl MainElements {
    pub open spec fn spec_next(self) -> Self {
        match self {
            Self::Connections => Self::Console,
            Self::Console => Self::Input,
            Self::Input => Self::Add,
            Self::Add => Self::Connections,
        }
    }

    pub open spec fn spec_prev(self) -> Self {
        match self {
            Self::Connections => Self::Add,
            Self::Console => Self::Connections,
            Self::Input => Self::Console,
            Self::Add => Self::Input,
        }
    }

    /// The panel reached from `self` after `n` moves forward.
    pub open spec fn forward(self, n: nat) -> Self
        decreases n,
    {
        if n == 0 {
            self
        } else {
            self.spec_next().forward((n - 1) as nat)
        }
    }

    /// The panel reached from `self` after `n` moves backward.
    pub open spec fn backward(self, n: nat) -> Self
        decreases n,
    {
        if n == 0 {
            self
        } else {
            self.spec_prev().backward((n - 1) as nat)
        }
    }

    pub fn next(self) -> (r: Self)
        ensures
            r == self.spec_next(),
    {
        match self {
            Self::Connections => Self::Console,
            Self::Console => Self::Input,
            Self::Input => Self::Add,
            Self::Add => Self::Connections,
        }
    }

    pub fn prev(&self) -> (r: Self)
        ensures
            r == self.spec_prev(),
    {
        match self {
            Self::Connections => Self::Add,
            Self::Console => Self::Connections,
            Self::Input => Self::Console,
            Self::Add => Self::Input,
        }
    }
}

/// Moving the dashboard focus forward, or backward, comes back to the start
/// after exactly four moves and not before.
pub proof fn lemma_main_focus_cycle(e: MainElements)
    ensures
        e.forward(4) == e,
        e.backward(4) == e,
        forall|n: nat| 0 < n < 4 ==> #[trigger] e.forward(n) != e,
        forall|n: nat| 0 < n < 4 ==> #[trigger] e.backward(n) != e,
        e.spec_next().spec_prev() == e,
        e.spec_prev().spec_next() == e,
{
    reveal_with_fuel(MainElements::forward, 5);
    reveal_with_fuel(MainElements::backward, 5);
    assert forall|n: nat| 0 < n < 4 implies #[trigger] e.forward(n) != e by {
        assert(n == 1 || n == 2 || n == 3);
    }
    assert forall|n: nat| 0 < n < 4 implies #[trigger] e.backward(n) != e by {
        assert(n == 1 || n == 2 || n == 3);
    }
}

/// The parts of the add-connection form, in focus order.
#[derive(Debug, Clone, Copy, PartialEq, Eq, Structural, PartialOrd, Ord)]
pub enum AddConnectionElements {
    Name,
    Address,
    Password,
    OkButton,
}

impl AddConnectionElements {
    pub open spec fn spec_next(self) -> Self {
        match self {
            Self::Name => Self::Address,
            Self::Address => Self::Password,
            Self::Password => Self::OkButton,
            Self::OkButton => Self::Name,
        }
    }

    pub open spec fn spec_prev(self) -> Self {
        match self {
            Self::Name => Self::OkButton,
            Self::Address => Self::Name,
            Self::Password => Self::Address,
            Self::OkButton => Self::Password,
        }
    }

    /// The part reached from `self` after `n` moves forward.
    pub open spec fn forward(self, n: nat) -> Self
        decreases n,
    {
        if n == 0 {
            self
        } else {
            self.spec_next().forward((n - 1) as nat)
        }
    }

    /// The part reached from `self` after `n` moves backward.
    pub open spec fn backward(self, n: nat) -> Self
        decreases n,
    {
        if n == 0 {
            self
        } else {
            self.spec_prev().backward((n - 1) as nat)
        }
    }

    /// Index of the text field that this part edits; the button edits none.
    pub open spec fn spec_field_index(self) -> Option<int> {
        match self {
            Self::Name => Some(0),
            Self::Address => Some(1),
            Self::Password => Some(2),
            Self::OkButton => None,
        }
    }

    pub fn next(self) -> (r: Self)
        ensures
            r == self.spec_next(),
    {
        match self {
            Self::Name => Self::Address,
            Self::Address => Self::Password,
            Self::Password => Self::OkButton,
            Self::OkButton => Self::Name,
        }
    }

    pub fn prev(&self) -> (r: Self)
        ensures
            r == self.spec_prev(),
    {
        match self {
            Self::Name => Self::OkButton,
            Self::Address => Self::Name,
            Self::Password => Self::Address,
            Self::OkButton => Self::Password,
        }
    }

    pub fn field_index(&self) -> (r: Option<usize>)
        ensures
            match self.spec_field_index() {
                Some(i) => r == Some(i as usize) && 0 <= i < 3,
                None => r.is_none(),
            },
    {
        match self {
            Self::Name => Some(0),
            Self::Address => Some(1),
            Self::Password => Some(2),
            Self::OkButton => None,
        }
    }
}

/// Moving the form focus forward, or backward, comes back to the start after
/// exactly four moves and not before.
pub proof fn lemma_form_focus_cycle(e: AddConnectionElements)
    ensures
        e.forward(4) == e,
        e.backward(4) == e,
        forall|n: nat| 0 < n < 4 ==> #[trigger] e.forward(n) != e,
        forall|n: nat| 0 < n < 4 ==> #[trigger] e.backward(n) != e,
        e.spec_next().spec_prev() == e,
        e.spec_prev().spec_next() == e,
{
    reveal_with_fuel(AddConnectionElements::forward, 5);
    reveal_with_fuel(AddConnectionElements::backward, 5);
    assert forall|n: nat| 0 < n < 4 implies #[trigger] e.forward(n) != e by {
        assert(n == 1 || n == 2 || n == 3);
    }
    assert forall|n: nat| 0 < n < 4 implies #[trigger] e.backward(n) != e by {
        assert(n == 1 || n == 2 || n == 3);
    }
}

} // verus!
