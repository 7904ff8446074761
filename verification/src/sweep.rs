use vstd::prelude::*;
use crate::strbuf::{decimal, push_char, push_decimal};

verus! {

/// The counter-surveillance sweep presets: name, duration label, duration
/// in seconds and description, by menu index.
pub open spec fn sweep_preset_spec(idx: usize) -> Option<(Seq<char>, Seq<char>, u32, Seq<char>)> {
    if idx == 0 {
        Some(("VEHICLE_QUICK"@, "5 min"@, 300u32, "Fast vehicle sweep: common tracker bands, FM/LTE/GPS"@))
    } else if idx == 1 {
        Some(("VEHICLE_THOROUGH"@, "15 min"@, 900u32, "Full vehicle sweep: 70-1700 MHz, all bands, nearfield"@))
    } else if idx == 2 {
        Some(("ROOM_SWEEP"@, "20 min"@, 1200u32, "Indoor sweep: close-range, extended dwell, all modulations"@))
    } else {
        None
    }
}

pub fn sweep_preset(idx: usize) -> (res: Option<(&'static str, &'static str, u32, &'static str)>)
    ensures
        match res {
            Some(p) => sweep_preset_spec(idx) == Some((p.0@, p.1@, p.2, p.3@)),
            None => sweep_preset_spec(idx) is None,
        },
{
    if idx == 0 {
        Some(("VEHICLE_QUICK", "5 min", 300, "Fast vehicle sweep: common tracker bands, FM/LTE/GPS"))
    } else if idx == 1 {
        Some(("VEHICLE_THOROUGH", "15 min", 900, "Full vehicle sweep: 70-1700 MHz, all bands, nearfield"))
    } else if idx == 2 {
        Some(("ROOM_SWEEP", "20 min", 1200, "Indoor sweep: close-range, extended dwell, all modulations"))
    } else {
        None
    }
}

/// The sweep timer: whether a sweep runs, which preset and for how long.
/// The clock reading at its start stays with the caller.
pub struct SweepState {
    pub active: bool,
    pub protocol: String,
    pub duration_sec: u32,
}

impl SweepState {
    /// A running sweep is one of the presets, with its duration.
    pub open spec fn wf(self) -> bool {
        self.active ==> exists|idx: usize| (#[trigger] sweep_preset_spec(idx) matches Some(p)
            && p.0 == self.protocol@ && p.2 == self.duration_sec)
    }

    /// No sweep running.
    pub fn new() -> (res: Self)
        ensures
            res.wf(),
            !res.active,
            res.protocol@ == Seq::<char>::empty(),
            res.duration_sec == 0,
    {
        SweepState { active: false, protocol: String::new(), duration_sec: 0 }
    }

    /// Whether a sweep can be started (none is running).
    pub fn can_start(&self) -> (res: bool)
        ensures
            res == !self.active,
    {
        !self.active
    }

    /// Starts preset `idx` unless a sweep is running. Returns whether it
    /// started (the caller then stamps the start time).
    pub fn start(&mut self, idx: usize) -> (started: bool)
        requires
            old(self).wf(),
        ensures
            final(self).wf(),
            started == (!old(self).active && sweep_preset_spec(idx) is Some),
            started ==> final(self).active,
            started ==> (sweep_preset_spec(idx) matches Some(p)
                && final(self).protocol@ == p.0 && final(self).duration_sec == p.2),
            !started ==> *final(self) == *old(self),
    {
        if self.active {
            return false;
        }
        match sweep_preset(idx) {
            Some(p) => {
                self.active = true;
                self.protocol = String::from_str(p.0);
                self.duration_sec = p.2;
                assert(sweep_preset_spec(idx) matches Some(q) && q.0 == self.protocol@ && q.2 == self.duration_sec);
                true
            },
            None => false,
        }
    }

    /// Cancels the running sweep.
    pub fn cancel(&mut self)
        ensures
            final(self).wf(),
            !final(self).active,
            final(self).protocol@ == Seq::<char>::empty(),
            final(self).duration_sec == old(self).duration_sec,
    {
        self.active = false;
        self.protocol = String::new();
    }

    /// Advances the timer: a running sweep ends once `elapsed_secs` whole
    /// seconds have passed its duration. Returns whether it ended now.
    pub fn tick(&mut self, elapsed_secs: u32) -> (ended: bool)
        requires
            old(self).wf(),
        ensures
            final(self).wf(),
            ended == (old(self).active && elapsed_secs >= old(self).duration_sec),
            ended ==> (!final(self).active && final(self).protocol@ == Seq::<char>::empty()
                && final(self).duration_sec == old(self).duration_sec),
            !ended ==> *final(self) == *old(self),
    {
        if self.active && elapsed_secs >= self.duration_sec {
            self.cancel();
            true
        } else {
            false
        }
    }
}

/// Two-digit decimal (with a leading zero below ten).
pub open spec fn two_digits(n: nat) -> Seq<char> {
    if n < 10 {
        seq!['0'] + decimal(n)
    } else {
        decimal(n)
    }
}

/// `m:ss/m:ss` of the elapsed and total sweep time.
pub open spec fn sweep_clock_spec(elapsed: u32, total: u32) -> Seq<char> {
    decimal((elapsed / 60) as nat) + seq![':'] + two_digits((elapsed % 60) as nat) + seq!['/']
        + decimal((total / 60) as nat) + seq![':'] + two_digits((total % 60) as nat)
}

fn push_two_digits(s: &mut String, n: u32)
    ensures
        final(s)@ == old(s)@ + two_digits(n as nat),
{
    if n < 10 {
        push_char(s, '0');
    }
    push_decimal(s, n as u64);
}

/// The sweep progress clock, elapsed over total time, in minutes and seconds.
pub fn sweep_clock_text(elapsed_secs: u32, total_secs: u32) -> (res: String)
    ensures
        res@ == sweep_clock_spec(elapsed_secs, total_secs),
{
    let mut s = String::new();
    push_decimal(&mut s, (elapsed_secs / 60) as u64);
    push_char(&mut s, ':');
    push_two_digits(&mut s, elapsed_secs % 60);
    push_char(&mut s, '/');
    push_decimal(&mut s, (total_secs / 60) as u64);
    push_char(&mut s, ':');
    push_two_digits(&mut s, total_secs % 60);
    assert(s@ =~= sweep_clock_spec(elapsed_secs, total_secs));
    s
}

} // verus!
