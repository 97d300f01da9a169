//! Progress accounting for the engine's read loop: integer byte and time
//! bookkeeping that decides when a status line is due and what it says.

use vstd::prelude::*;

verus! {

/// The reporter's whole state: when it last emitted, and how many bytes the
/// engine read since then.
pub struct ProgressState {
    pub last_emit_ms: u64,
    pub bytes_since_emit: u64,
}

/// One due status line: percentage done of the current source (integer
/// truncation), and the bytes and wall-clock time of the window since the
/// previous emission, from which the caller renders a throughput.
pub struct ProgressUpdate {
    pub percent: u64,
    pub bytes_in_window: u64,
    pub elapsed_ms: u64,
}

impl ProgressState {
    /// A fresh reporter, as the engine starts reading one source at `now_ms`.
    pub fn new(now_ms: u64) -> (r: ProgressState)
        ensures
            r.last_emit_ms == now_ms,
            r.bytes_since_emit == 0,
    {
        ProgressState { last_emit_ms: now_ms, bytes_since_emit: 0 }
    }

    /// Accounts one read of `bytes_read` bytes at `now_ms`, with `total_read`
    /// bytes of the `total_size`-byte source read so far. Emits exactly when
    /// progress is shown and more than a second passed since the last
    /// emission; an emission resets the window, anything else only widens it.
    pub fn record(
        &mut self,
        now_ms: u64,
        bytes_read: u64,
        total_read: u64,
        total_size: u64,
        show_progress: bool,
    ) -> (r: Option<ProgressUpdate>)
        requires
            total_size >= 1,
            total_read <= total_size,
            old(self).last_emit_ms <= now_ms,
            old(self).bytes_since_emit + bytes_read <= total_read,
        ensures
            (r is Some) <==> (show_progress && now_ms - old(self).last_emit_ms > 1000),
            r is Some ==> r->0.percent == total_read * 100 / (total_size as int),
            r is Some ==> r->0.bytes_in_window == old(self).bytes_since_emit + bytes_read,
            r is Some ==> r->0.elapsed_ms == now_ms - old(self).last_emit_ms,
            r is Some ==> final(self).last_emit_ms == now_ms && final(self).bytes_since_emit == 0,
            r is None ==> final(self).last_emit_ms == old(self).last_emit_ms,
            r is None ==> final(self).bytes_since_emit == old(self).bytes_since_emit + bytes_read,
    {
        let window = self.bytes_since_emit + bytes_read;
        if show_progress && now_ms - self.last_emit_ms > 1000 {
            let elapsed = now_ms - self.last_emit_ms;
            let percent_wide = (total_read as u128) * 100 / (total_size as u128);
            proof {
                assert((total_read as u128) * 100 <= (total_size as u128) * 100)
                    by (nonlinear_arith)
                    requires total_read <= total_size;
                vstd::arithmetic::div_mod::lemma_div_is_ordered(
                    (total_read as int) * 100,
                    (total_size as int) * 100,
                    total_size as int,
                );
                vstd::arithmetic::div_mod::lemma_div_multiples_vanish(
                    100,
                    total_size as int,
                );
            }
            let percent = percent_wide as u64;
            self.last_emit_ms = now_ms;
            self.bytes_since_emit = 0;
            Some(ProgressUpdate { percent, bytes_in_window: window, elapsed_ms: elapsed })
        } else {
            self.bytes_since_emit = window;
            None
        }
    }
}

} // verus!
