use vstd::prelude::*;
use chrono::Datelike;

verus! {

/// The fixed ceiling on upstream calls charged to one calendar day.
pub const REQUEST_LIMIT: i32 = 10000;

/// The single live row of the budget counter: a calendar day, as a day
/// number, and the number of upstream calls charged to it so far.
#[derive(Clone, Copy, Debug, PartialEq, Eq, Structural)]
pub struct RequestCount {
    pub date: i32,
    pub count: i32,
}

/// The row after one registration on day `today`: on first use or when the
/// stored day is not `today` the row resets to (today, 1); otherwise the
/// count rises by one.
pub open spec fn spec_increment(row: Option<RequestCount>, today: i32) -> RequestCount {
    match row {
        None => RequestCount { date: today, count: 1 },
        Some(r) => if r.date == today {
            RequestCount { date: today, count: (r.count + 1) as i32 }
        } else {
            RequestCount { date: today, count: 1 }
        },
    }
}

/// Whether a registration on day `today` may proceed: the count it charges
/// must not pass the daily ceiling.
pub open spec fn spec_allowed(row: Option<RequestCount>, today: i32) -> bool {
    spec_increment(row, today).count <= REQUEST_LIMIT
}

/// The count the read-only accessor reports on day `today`: the stored
/// count when the row is from `today`, else 0.
pub open spec fn spec_count_on(row: Option<RequestCount>, today: i32) -> i32 {
    match row {
        Some(r) => if r.date == today {
            r.count
        } else {
            0
        },
        None => 0,
    }
}

/// The row after `n` registrations in a row, all on day `today`.
pub open spec fn spec_register_n(row: Option<RequestCount>, today: i32, n: nat) -> Option<
    RequestCount,
>
    decreases n,
{
    if n == 0 {
        row
    } else {
        Some(spec_increment(spec_register_n(row, today, (n - 1) as nat), today))
    }
}

/// On a day the stored row does not already cover, `n` registrations leave
/// the count at exactly `n`.
pub proof fn lemma_count_after_n(row: Option<RequestCount>, today: i32, n: nat)
    requires
        1 <= n <= i32::MAX,
        row matches Some(r) ==> r.date != today,
    ensures
        spec_register_n(row, today, n) == Some((RequestCount { date: today, count: n as i32 })),
    decreases n,
{
    reveal_with_fuel(spec_register_n, 2);
    if n > 1 {
        lemma_count_after_n(row, today, (n - 1) as nat);
    }
}

/// The first registration of a new calendar day (or of a store with no row
/// yet) is allowed and resets the row to a visible count of 1.
pub proof fn lemma_budget_new_day(row: Option<RequestCount>, today: i32)
    requires
        row matches Some(r) ==> r.date != today,
    ensures
        spec_allowed(row, today),
        spec_increment(row, today) == (RequestCount { date: today, count: 1 }),
{
}

/// The daily ceiling: starting a fresh day, each of the first 10,000
/// registrations is allowed, and the 10,001st is refused.
pub proof fn lemma_budget_ceiling(row: Option<RequestCount>, today: i32)
    requires
        row matches Some(r) ==> r.date != today,
    ensures
        forall|k: nat|
            0 <= k < REQUEST_LIMIT ==> spec_allowed(
                #[trigger] spec_register_n(row, today, k),
                today,
            ),
        !spec_allowed(spec_register_n(row, today, REQUEST_LIMIT as nat), today),
{
    assert forall|k: nat| 0 <= k < REQUEST_LIMIT implies spec_allowed(
        #[trigger] spec_register_n(row, today, k),
        today,
    ) by {
        if k > 0 {
            lemma_count_after_n(row, today, k);
        }
    }
    lemma_count_after_n(row, today, REQUEST_LIMIT as nat);
}

/// Relies on chrono: `Local::now().date_naive()` reads the current local
/// calendar day from the system clock, and `Datelike::num_days_from_ce`
/// maps each calendar day to a distinct day number.
#[verifier::external_body]
fn today_day_number() -> (d: i32) {
    chrono::Local::now().date_naive().num_days_from_ce()
}

/// The persisted request-budget counter: at most one logical row is live.
pub struct RequestStore {
    row: Option<RequestCount>,
}

impl View for RequestStore {
    type V = Option<RequestCount>;

    closed spec fn view(&self) -> Option<RequestCount> {
        self.row
    }
}

impl RequestStore {
    /// A live row never records fewer than one charged call.
    pub open spec fn wf(self) -> bool {
        self@ matches Some(r) ==> r.count >= 1
    }

    /// A store with no row yet, as first use finds it.
    pub fn new() -> (s: Self)
        ensures
            s@ is None,
            s.wf(),
    {
        RequestStore { row: None }
    }

    /// Rebuilds a store from a persisted row; a row claiming fewer than one
    /// charged call is corrupt and refused.
    pub fn from_row(row: Option<RequestCount>) -> (s: Option<Self>)
        ensures
            s is Some <==> (row matches Some(r) ==> r.count >= 1),
            (s matches Some(st) ==> st@ == row && st.wf()),
    {
        match row {
            Some(r) if r.count < 1 => None,
            _ => Some(RequestStore { row }),
        }
    }

    /// The live row, for persistence.
    pub fn current_row(&self) -> (r: Option<RequestCount>)
        ensures
            r == self@,
    {
        self.row
    }

    /// Charges one upstream call to day `today` and reports whether the
    /// call may proceed. The row is created if absent and reset if its
    /// stored day is not `today`.
    pub fn increment_on(&mut self, today: i32) -> (allowed: bool)
        requires
            old(self).wf(),
            old(self)@ matches Some(r) ==> (r.date == today ==> r.count < i32::MAX),
        ensures
            final(self)@ == Some(spec_increment(old(self)@, today)),
            allowed == spec_allowed(old(self)@, today),
            final(self).wf(),
    {
        let count: i32 = match &self.row {
            None => 1,
            Some(r) => if r.date == today {
                r.count + 1
            } else {
                1
            },
        };
        self.row = Some(RequestCount { date: today, count });
        count <= REQUEST_LIMIT
    }

    /// The count charged to day `today`, 0 when no row covers it. Does not
    /// mutate the store.
    pub fn get_count_on(&self, today: i32) -> (c: i32)
        ensures
            c == spec_count_on(self@, today),
    {
        match &self.row {
            None => 0,
            Some(r) => if r.date == today {
                r.count
            } else {
                0
            },
        }
    }

    /// Charges one upstream call to the current calendar day. The day comes
    /// from the system clock, so the contract holds for whatever day that
    /// was.
    pub fn increment(&mut self) -> (allowed: bool)
        requires
            old(self).wf(),
            old(self)@ matches Some(r) ==> r.count < i32::MAX,
        ensures
            exists|d: i32|
                final(self)@ == Some(#[trigger] spec_increment(old(self)@, d)) && allowed
                    == spec_allowed(old(self)@, d),
            final(self).wf(),
    {
        let today = today_day_number();
        let allowed = self.increment_on(today);
        proof {
            assert(final(self)@ == Some(spec_increment(old(self)@, today)) && allowed
                == spec_allowed(old(self)@, today));
        }
        allowed
    }

    /// The count charged to the current calendar day, for diagnostics.
    pub fn get_count(&self) -> (c: i32)
        ensures
            exists|d: i32| c == #[trigger] spec_count_on(self@, d),
    {
        let today = today_day_number();
        let c = self.get_count_on(today);
        proof {
            assert(c == spec_count_on(self@, today));
        }
        c
    }
}

} // verus!
