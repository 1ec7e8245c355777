//! The tabs of the interface and how the user moves between them.
use vstd::prelude::*;

verus! {

/// A tab of the interface.
#[derive(Debug, Clone, Copy, PartialEq, Eq, Structural)]
pub enum Tab {
    Overview,
    Performance,
    Fans,
    Aura,
    Gpu,
    Battery,
}

/// Position of a tab in display order.
pub open spec fn tab_index(t: Tab) -> nat {
    match t {
        Tab::Overview => 0,
        Tab::Performance => 1,
        Tab::Fans => 2,
        Tab::Aura => 3,
        Tab::Gpu => 4,
        Tab::Battery => 5,
    }
}

/// The tab at a position in display order (positions past the end give the last tab).
pub open spec fn tab_at(i: nat) -> Tab {
    if i == 0 {
        Tab::Overview
    } else if i == 1 {
        Tab::Performance
    } else if i == 2 {
        Tab::Fans
    } else if i == 3 {
        Tab::Aura
    } else if i == 4 {
        Tab::Gpu
    } else {
        Tab::Battery
    }
}

/// Number of tabs.
pub open spec fn tab_count() -> nat {
    6
}

/// Title shown for a tab.
pub open spec fn tab_title(t: Tab) -> Seq<char> {
    match t {
        Tab::Overview => "Overview"@,
        Tab::Performance => "Performance"@,
        Tab::Fans => "Fans"@,
        Tab::Aura => "Aura"@,
        Tab::Gpu => "GPU"@,
        Tab::Battery => "Battery"@,
    }
}

/// The tab after `t`, wrapping from the last to the first.
pub open spec fn tab_next(t: Tab) -> Tab {
    tab_at(((tab_index(t) + 1) % 6) as nat)
}

/// The tab before `t`, wrapping from the first to the last.
pub open spec fn tab_prev(t: Tab) -> Tab {
    tab_at(((tab_index(t) + 5) % 6) as nat)
}

/// The tab a number key selects: keys count from 1, and 0 counts as 1.
pub open spec fn tab_for_number(n: u8) -> Option<Tab> {
    let i: nat = if n == 0 { 0 } else { (n - 1) as nat };
    if i < tab_count() {
        Some(tab_at(i))
    } else {
        None
    }
}

impl Tab {
    /// All tabs in display order.
    pub fn all() -> (r: [Tab; 6])
        ensures
            forall|i: int| 0 <= i < 6 ==> #[trigger] r@[i] == tab_at(i as nat),
            r@.len() == 6,
    {
        [Tab::Overview, Tab::Performance, Tab::Fans, Tab::Aura, Tab::Gpu, Tab::Battery]
    }

    /// Position of the tab in display order.
    pub fn index(self) -> (r: usize)
        ensures
            r == tab_index(self),
    {
        match self {
            Tab::Overview => 0,
            Tab::Performance => 1,
            Tab::Fans => 2,
            Tab::Aura => 3,
            Tab::Gpu => 4,
            Tab::Battery => 5,
        }
    }

    fn at(i: usize) -> (r: Tab)
        ensures
            r == tab_at(i as nat),
    {
        if i == 0 {
            Tab::Overview
        } else if i == 1 {
            Tab::Performance
        } else if i == 2 {
            Tab::Fans
        } else if i == 3 {
            Tab::Aura
        } else if i == 4 {
            Tab::Gpu
        } else {
            Tab::Battery
        }
    }

    /// The tab's title.
    pub fn title(self) -> (r: &'static str)
        ensures
            r@ == tab_title(self),
    {
        match self {
            Tab::Overview => "Overview",
            Tab::Performance => "Performance",
            Tab::Fans => "Fans",
            Tab::Aura => "Aura",
            Tab::Gpu => "GPU",
            Tab::Battery => "Battery",
        }
    }

    /// The tab after this one, wrapping from the last to the first.
    pub fn next(self) -> (r: Tab)
        ensures
            r == tab_next(self),
    {
        Tab::at((self.index() + 1) % 6)
    }

    /// The tab before this one, wrapping from the first to the last.
    pub fn prev(self) -> (r: Tab)
        ensures
            r == tab_prev(self),
    {
        Tab::at((self.index() + 6 - 1) % 6)
    }

    /// The tab for number key `n` (1 is the first tab); `None` past the last.
    pub fn from_number(n: u8) -> (r: Option<Tab>)
        ensures
            r == tab_for_number(n),
    {
        let i = n.saturating_sub(1) as usize;
        if i < 6 {
            Some(Tab::at(i))
        } else {
            None
        }
    }
}

/// Moving to the next tab and then back returns to where one started, and
/// so does moving back and then forward.
pub proof fn lemma_next_prev_inverse(t: Tab)
    ensures
        tab_prev(tab_next(t)) == t,
        tab_next(tab_prev(t)) == t,
{
}

/// Moving to the next tab as many times as there are tabs visits every tab
/// once and returns to the start.
pub proof fn lemma_next_cycles(t: Tab)
    ensures
        forall|k: nat|
            k < tab_count() ==> tab_index(#[trigger] next_n(t, k)) == (tab_index(t) + k)
                % tab_count(),
        next_n(t, tab_count()) == t,
{
    assert forall|k: nat| k < tab_count() implies tab_index(#[trigger] next_n(t, k)) == (tab_index(t)
        + k) % tab_count() by {
        lemma_next_n_index(t, k);
    }
    lemma_next_n_index(t, tab_count());
}

/// The tab reached by moving to the next tab `k` times.
pub open spec fn next_n(t: Tab, k: nat) -> Tab
    decreases k,
{
    if k == 0 {
        t
    } else {
        tab_next(next_n(t, (k - 1) as nat))
    }
}

proof fn lemma_next_n_index(t: Tab, k: nat)
    ensures
        tab_index(next_n(t, k)) == (tab_index(t) + k) % tab_count(),
    decreases k,
{
    if k > 0 {
        lemma_next_n_index(t, (k - 1) as nat);
    }
}

/// Number key `i + 1` selects the tab at position `i`, and only keys up to
/// the number of tabs select one.
pub proof fn lemma_number_keys(t: Tab, n: u8)
    ensures
        tab_for_number((tab_index(t) + 1) as u8) == Some(t),
        tab_for_number(n) is Some <==> n <= tab_count(),
{
}

} // verus!
