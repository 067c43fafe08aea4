use vstd::prelude::*;

verus! {

/// Seconds in one day.
pub const SECONDS_IN_DAY: i64 = 86400;

/// Seconds after the nominal expiration during which a renewal is still
/// accepted: three days.
pub const GRACE_SECONDS: i64 = 259200;

/// The mathematical value of a license record.
pub struct LicenseView {
    pub license: Seq<char>,
    pub wallet: Seq<char>,
    pub activated: bool,
    pub expiration: Option<i64>,
}

/// Where a record stands in its lifecycle at a given instant. The state is
/// derived from the record and the clock; it is never stored.
#[derive(Debug, Clone, Copy, PartialEq, Eq, Structural)]
pub enum LifecycleState {
    /// Never activated.
    Unactivated,
    /// Activated, and the grace window has not closed yet.
    Active,
    /// Activated, and the grace window has closed.
    Expired,
}

impl LicenseView {
    /// The record invariant: an expiration is present exactly when the
    /// license has been activated.
    pub open spec fn consistent(self) -> bool {
        self.activated <==> self.expiration is Some
    }

    /// The last instant at which a renewal is still accepted.
    pub open spec fn grace_deadline(self) -> int
        recommends
            self.expiration is Some,
    {
        self.expiration->Some_0 + GRACE_SECONDS
    }

    /// The lifecycle state at instant `now`. A record that claims to be
    /// activated but carries no expiration counts as unactivated.
    pub open spec fn state_at(self, now: int) -> LifecycleState {
        if !self.activated || self.expiration is None {
            LifecycleState::Unactivated
        } else if now > self.grace_deadline() {
            LifecycleState::Expired
        } else {
            LifecycleState::Active
        }
    }

    /// The record as it is first created: unactivated, without expiration.
    pub open spec fn fresh(license: Seq<char>, wallet: Seq<char>) -> LicenseView {
        LicenseView { license, wallet, activated: false, expiration: None }
    }
}

/// One license record.
#[derive(Debug, PartialEq, Eq)]
pub struct License {
    /// The key: unique over the collection and never changed.
    pub license: String,
    /// The owner. Many records may share one owner.
    pub wallet: String,
    /// Whether the license has been activated.
    pub activated: bool,
    /// Unix time, in seconds, at which the license lapses.
    pub expiration: Option<i64>,
}

impl View for License {
    type V = LicenseView;

    open spec fn view(&self) -> LicenseView {
        LicenseView {
            license: self.license@,
            wallet: self.wallet@,
            activated: self.activated,
            expiration: self.expiration,
        }
    }
}

impl Clone for License {
    fn clone(&self) -> (copy: Self)
        ensures
            copy == *self,
    {
        License {
            license: self.license.clone(),
            wallet: self.wallet.clone(),
            activated: self.activated,
            expiration: self.expiration,
        }
    }
}

impl License {
    /// A new record for `license`, owned by `wallet`: unactivated and
    /// without expiration.
    pub fn new(license: String, wallet: String) -> (record: License)
        ensures
            record@ == LicenseView::fresh(license@, wallet@),
            record@.consistent(),
    {
        License { license, wallet, activated: false, expiration: None }
    }

    /// Whether the record meets the invariant that ties `expiration` to
    /// `activated`.
    pub fn is_consistent(&self) -> (ok: bool)
        ensures
            ok == self@.consistent(),
    {
        self.activated == self.expiration.is_some()
    }

    /// The lifecycle state of the record at instant `now`.
    pub fn state_at(&self, now: i64) -> (state: LifecycleState)
        ensures
            state == self@.state_at(now as int),
    {
        match self.expiration {
            Some(expiration) if self.activated => {
                match expiration.checked_add(GRACE_SECONDS) {
                    Some(deadline) if now > deadline => LifecycleState::Expired,
                    _ => LifecycleState::Active,
                }
            },
            _ => LifecycleState::Unactivated,
        }
    }
}

} // verus!
