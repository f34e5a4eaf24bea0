//! The scanner rate limiter: a small state machine that admits at most one
//! scan per minimum interval and counts scans and errors. Time enters as a
//! millisecond timestamp argument; the caller supplies it and handles any
//! waiting or retrying.

use vstd::prelude::*;

verus! {

/// The least time between two admitted scans, in milliseconds.
pub const MIN_SCAN_INTERVAL_MS: u64 = 500;

/// The rate limiter's state.
#[derive(Clone, Copy, Debug, PartialEq, Eq, Structural)]
pub struct ScannerState {
    pub is_locked: bool,
    pub last_scan_ms: u64,
    pub scan_count: u32,
    pub errors: u32,
}

impl ScannerState {
    /// A fresh state: unlocked, anchored at the given instant.
    pub fn new(now_ms: u64) -> (s: Self)
        ensures
            s == (ScannerState { is_locked: false, last_scan_ms: now_ms, scan_count: 0, errors: 0 }),
    {
        ScannerState { is_locked: false, last_scan_ms: now_ms, scan_count: 0, errors: 0 }
    }

    /// Whether a scan may start now: the lock is free and the minimum
    /// interval has passed since the last scan.
    pub fn can_scan(&self, now_ms: u64) -> (r: bool)
        requires
            now_ms >= self.last_scan_ms,
        ensures
            r == (!self.is_locked && now_ms - self.last_scan_ms >= MIN_SCAN_INTERVAL_MS),
    {
        !self.is_locked && now_ms - self.last_scan_ms >= MIN_SCAN_INTERVAL_MS
    }

    /// Admit a scan: take the lock, move the anchor, count the scan.
    pub fn record_scan(&mut self, now_ms: u64)
        requires
            old(self).scan_count < u32::MAX,
        ensures
            *final (self) == (ScannerState {
                is_locked: true,
                last_scan_ms: now_ms,
                scan_count: (old(self).scan_count + 1) as u32,
                errors: old(self).errors,
            }),
    {
        self.is_locked = true;
        self.last_scan_ms = now_ms;
        self.scan_count = self.scan_count + 1;
    }

    /// Count one error.
    pub fn record_error(&mut self)
        requires
            old(self).errors < u32::MAX,
        ensures
            *final (self) == (ScannerState { errors: (old(self).errors + 1) as u32, ..*old(self) }),
    {
        self.errors = self.errors + 1;
    }
}

/// A snapshot of the rate limiter for display.
#[derive(Clone, Copy, Debug, PartialEq, Eq, Structural)]
pub struct ScannerStats {
    pub total_scans: u32,
    pub total_errors: u32,
    pub last_scan_age_ms: u64,
    pub is_locked: bool,
}

/// The scanner lock: the rate limiter together with its acquire/release
/// protocol. The caller reads the clock and may retry a refused
/// acquisition after a pause.
#[derive(Clone, Copy, Debug)]
pub struct ScannerLock {
    pub state: ScannerState,
}

impl ScannerLock {
    /// A fresh lock anchored at the given instant.
    pub fn new(now_ms: u64) -> (l: Self)
        ensures
            l.state == (ScannerState {
                is_locked: false,
                last_scan_ms: now_ms,
                scan_count: 0,
                errors: 0,
            }),
    {
        ScannerLock { state: ScannerState::new(now_ms) }
    }

    /// One attempt to acquire the scanner for a scan: admits and records
    /// the scan when allowed, refuses otherwise.
    pub fn acquire(&mut self, now_ms: u64) -> (r: Result<bool, String>)
        requires
            now_ms >= old(self).state.last_scan_ms,
            old(self).state.scan_count < u32::MAX,
        ensures
            ({
                let could = !old(self).state.is_locked && now_ms - old(self).state.last_scan_ms
                    >= MIN_SCAN_INTERVAL_MS;
                if could {
                    r == Ok::<bool, String>(true) && final (self).state == (ScannerState {
                        is_locked: true,
                        last_scan_ms: now_ms,
                        scan_count: (old(self).state.scan_count + 1) as u32,
                        errors: old(self).state.errors,
                    })
                } else {
                    r is Err && final (self).state == old(self).state
                }
            }),
    {
        if self.state.can_scan(now_ms) {
            self.state.record_scan(now_ms);
            Ok(true)
        } else {
            Err("Scanner lock acquisition timeout".to_owned())
        }
    }

    /// Count one scan error.
    pub fn record_error(&mut self) -> (r: Result<(), String>)
        requires
            old(self).state.errors < u32::MAX,
        ensures
            r is Ok,
            final (self).state == (ScannerState {
                errors: (old(self).state.errors + 1) as u32,
                ..old(self).state
            }),
    {
        self.state.record_error();
        Ok(())
    }

    /// A snapshot of the counters as of the given instant.
    pub fn get_stats(&self, now_ms: u64) -> (r: Result<ScannerStats, String>)
        requires
            now_ms >= self.state.last_scan_ms,
        ensures
            r == Ok::<ScannerStats, String>(
                ScannerStats {
                    total_scans: self.state.scan_count,
                    total_errors: self.state.errors,
                    last_scan_age_ms: (now_ms - self.state.last_scan_ms) as u64,
                    is_locked: self.state.is_locked,
                },
            ),
    {
        Ok(
            ScannerStats {
                total_scans: self.state.scan_count,
                total_errors: self.state.errors,
                last_scan_age_ms: now_ms - self.state.last_scan_ms,
                is_locked: self.state.is_locked,
            },
        )
    }

    /// Release the scanner.
    pub fn release(&mut self) -> (r: Result<(), String>)
        ensures
            r is Ok,
            final (self).state == (ScannerState { is_locked: false, ..old(self).state }),
    {
        self.state.is_locked = false;
        Ok(())
    }
}

} // verus!
