use vstd::prelude::*;
use crate::strbuf::{starts_with, str_eq};

verus! {

/// Display label of a protocol event type.
pub open spec fn event_type_label_spec(t: Seq<char>) -> Seq<char> {
    if t == "p25"@ {
        "P25"@
    } else if t == "tsbk"@ {
        "TSBK"@
    } else if t == "rds"@ {
        "RDS"@
    } else if t == "cqpsk_status"@ {
        "CQPSK"@
    } else {
        t
    }
}

/// Short display label of a protocol event type; unknown types are shown as given.
pub fn event_type_label(event_type: &str) -> (res: &str)
    ensures
        res@ == event_type_label_spec(event_type@),
{
    if str_eq(event_type, "p25") {
        "P25"
    } else if str_eq(event_type, "tsbk") {
        "TSBK"
    } else if str_eq(event_type, "rds") {
        "RDS"
    } else if str_eq(event_type, "cqpsk_status") {
        "CQPSK"
    } else {
        event_type
    }
}

/// Three-letter severity label for a raw severity number.
pub open spec fn sev_label_spec(sev: u8) -> Seq<char> {
    if sev <= 2 {
        "TRC"@
    } else if sev <= 6 {
        "DBG"@
    } else if sev <= 10 {
        "INF"@
    } else if sev <= 12 {
        "NTC"@
    } else if sev <= 16 {
        "WRN"@
    } else if sev <= 20 {
        "ERR"@
    } else {
        "FTL"@
    }
}

/// Three-letter severity label; the ranges follow the severity levels
/// TRACE (1), DEBUG (5), INFO (9), NOTICE (11), WARN (13), ERROR (17), FATAL (21).
pub fn sev_label_short(sev: u8) -> (res: &'static str)
    ensures
        res@ == sev_label_spec(sev),
{
    if sev <= 2 {
        "TRC"
    } else if sev <= 6 {
        "DBG"
    } else if sev <= 10 {
        "INF"
    } else if sev <= 12 {
        "NTC"
    } else if sev <= 16 {
        "WRN"
    } else if sev <= 20 {
        "ERR"
    } else {
        "FTL"
    }
}

/// Event types that stay visible in the tactical live view.
pub open spec fn tactical_event_types() -> Seq<Seq<char>> {
    seq![
        "protocol.p25.voice"@,
        "sigex.traffic.session"@,
        "sigex.emitter.new"@,
        "sigex.emitter.return"@,
        "sigex.uid.mismatch"@,
        "sigex.crypto.rotation"@,
        "sigex.network.emergency"@,
        "sigex.network.deny"@,
        "sigex.anomaly.baseline"@,
        "sigex.protocol.new_uid"@,
        "protocol.same.alert"@,
        "system.alert.fired"@,
        "system.sdr.error"@,
        "system.sdr.disconnect"@,
        "system.mode.change"@,
        "system.site.enter"@,
        "system.site.exit"@,
    ]
}

/// An event type is network noise unless it is listed as tactical or is a
/// custom rule's event (`custom.` prefix).
pub open spec fn is_network_noise_spec(t: Seq<char>) -> bool {
    &&& !tactical_event_types().contains(t)
    &&& !("custom."@.len() <= t.len() && t.take("custom."@.len() as int) == "custom."@)
}

fn tactical_list() -> (v: Vec<&'static str>)
    ensures
        v@.len() == tactical_event_types().len(),
        forall|i: int| 0 <= i < v@.len() ==> #[trigger] v@[i]@ == tactical_event_types()[i],
{
    let v = vec![
        "protocol.p25.voice",
        "sigex.traffic.session",
        "sigex.emitter.new",
        "sigex.emitter.return",
        "sigex.uid.mismatch",
        "sigex.crypto.rotation",
        "sigex.network.emergency",
        "sigex.network.deny",
        "sigex.anomaly.baseline",
        "sigex.protocol.new_uid",
        "protocol.same.alert",
        "system.alert.fired",
        "system.sdr.error",
        "system.sdr.disconnect",
        "system.mode.change",
        "system.site.enter",
        "system.site.exit",
    ];
    v
}

/// Tactical filter: true for network housekeeping that the live view hides.
pub fn is_network_noise(event_type: &str) -> (res: bool)
    ensures
        res == is_network_noise_spec(event_type@),
{
    let list = tactical_list();
    let mut i: usize = 0;
    while i < list.len()
        invariant
            i <= list@.len(),
            list@.len() == tactical_event_types().len(),
            forall|k: int| 0 <= k < list@.len() ==> #[trigger] list@[k]@ == tactical_event_types()[k],
            forall|k: int| 0 <= k < i ==> tactical_event_types()[k] != event_type@,
        decreases list@.len() - i,
    {
        if str_eq(event_type, list[i]) {
            assert(tactical_event_types()[i as int] == event_type@);
            return false;
        }
        i = i + 1;
    }
    assert(!tactical_event_types().contains(event_type@));
    !starts_with(event_type, "custom.")
}

/// Length in nanoseconds of the time-range preset with the given index
/// (1 h, 6 h, 24 h, 7 d); any other index gives 24 h.
pub open spec fn time_range_spec(index: usize) -> u64 {
    if index == 0 {
        3_600_000_000_000
    } else if index == 1 {
        21_600_000_000_000
    } else if index == 2 {
        86_400_000_000_000
    } else if index == 3 {
        604_800_000_000_000
    } else {
        86_400_000_000_000
    }
}

pub fn time_range_ns(index: usize) -> (res: u64)
    ensures
        res == time_range_spec(index),
{
    if index == 0 {
        3_600_000_000_000
    } else if index == 1 {
        21_600_000_000_000
    } else if index == 2 {
        86_400_000_000_000
    } else if index == 3 {
        604_800_000_000_000
    } else {
        86_400_000_000_000
    }
}

} // verus!

verus! {

/// Label of a time-range preset (`24H` for an index out of range).
pub open spec fn time_range_label_spec(index: usize) -> Seq<char> {
    if index == 0 {
        "1H"@
    } else if index == 1 {
        "6H"@
    } else if index == 3 {
        "7D"@
    } else {
        "24H"@
    }
}

pub fn time_range_label(index: usize) -> (res: &'static str)
    ensures
        res@ == time_range_label_spec(index),
{
    if index == 0 {
        "1H"
    } else if index == 1 {
        "6H"
    } else if index == 3 {
        "7D"
    } else {
        "24H"
    }
}


/// The tactical filter shows every event type on the tactical whitelist:
/// none of these is network noise.
pub proof fn law_tactical_whitelist_shown()
    ensures
        !is_network_noise_spec("protocol.p25.voice"@),
        !is_network_noise_spec("sigex.traffic.session"@),
        !is_network_noise_spec("sigex.emitter.new"@),
        !is_network_noise_spec("sigex.emitter.return"@),
        !is_network_noise_spec("sigex.uid.mismatch"@),
        !is_network_noise_spec("sigex.crypto.rotation"@),
        !is_network_noise_spec("sigex.network.emergency"@),
        !is_network_noise_spec("sigex.network.deny"@),
        !is_network_noise_spec("sigex.anomaly.baseline"@),
        !is_network_noise_spec("sigex.protocol.new_uid"@),
        !is_network_noise_spec("protocol.same.alert"@),
        !is_network_noise_spec("system.alert.fired"@),
        !is_network_noise_spec("system.sdr.error"@),
        !is_network_noise_spec("system.sdr.disconnect"@),
        !is_network_noise_spec("system.mode.change"@),
        !is_network_noise_spec("system.site.enter"@),
        !is_network_noise_spec("system.site.exit"@),
{
    let l = tactical_event_types();
    assert(l[0] == "protocol.p25.voice"@);
    assert(l[1] == "sigex.traffic.session"@);
    assert(l[2] == "sigex.emitter.new"@);
    assert(l[3] == "sigex.emitter.return"@);
    assert(l[4] == "sigex.uid.mismatch"@);
    assert(l[5] == "sigex.crypto.rotation"@);
    assert(l[6] == "sigex.network.emergency"@);
    assert(l[7] == "sigex.network.deny"@);
    assert(l[8] == "sigex.anomaly.baseline"@);
    assert(l[9] == "sigex.protocol.new_uid"@);
    assert(l[10] == "protocol.same.alert"@);
    assert(l[11] == "system.alert.fired"@);
    assert(l[12] == "system.sdr.error"@);
    assert(l[13] == "system.sdr.disconnect"@);
    assert(l[14] == "system.mode.change"@);
    assert(l[15] == "system.site.enter"@);
    assert(l[16] == "system.site.exit"@);
}


/// Exactly the tactical whitelist and custom rule events pass the tactical
/// filter: any other event type is network noise.
pub proof fn law_noise_is_everything_else(t: Seq<char>)
    ensures
        is_network_noise_spec(t) <==> !(
            t == "protocol.p25.voice"@
            || t == "sigex.traffic.session"@
            || t == "sigex.emitter.new"@
            || t == "sigex.emitter.return"@
            || t == "sigex.uid.mismatch"@
            || t == "sigex.crypto.rotation"@
            || t == "sigex.network.emergency"@
            || t == "sigex.network.deny"@
            || t == "sigex.anomaly.baseline"@
            || t == "sigex.protocol.new_uid"@
            || t == "protocol.same.alert"@
            || t == "system.alert.fired"@
            || t == "system.sdr.error"@
            || t == "system.sdr.disconnect"@
            || t == "system.mode.change"@
            || t == "system.site.enter"@
            || t == "system.site.exit"@
        ) && !("custom."@.len() <= t.len() && t.take("custom."@.len() as int) == "custom."@),
{
    let l = tactical_event_types();
    assert(l[0] == "protocol.p25.voice"@);
    assert(l[1] == "sigex.traffic.session"@);
    assert(l[2] == "sigex.emitter.new"@);
    assert(l[3] == "sigex.emitter.return"@);
    assert(l[4] == "sigex.uid.mismatch"@);
    assert(l[5] == "sigex.crypto.rotation"@);
    assert(l[6] == "sigex.network.emergency"@);
    assert(l[7] == "sigex.network.deny"@);
    assert(l[8] == "sigex.anomaly.baseline"@);
    assert(l[9] == "sigex.protocol.new_uid"@);
    assert(l[10] == "protocol.same.alert"@);
    assert(l[11] == "system.alert.fired"@);
    assert(l[12] == "system.sdr.error"@);
    assert(l[13] == "system.sdr.disconnect"@);
    assert(l[14] == "system.mode.change"@);
    assert(l[15] == "system.site.enter"@);
    assert(l[16] == "system.site.exit"@);
    if l.contains(t) {
        let k = choose|k: int| 0 <= k < l.len() && l[k] == t;
        assert(0 <= k < 17);
    }
}

} // verus!
