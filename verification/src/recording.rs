use vstd::prelude::*;
use vstd::string::{StrSliceExecFns, StringExecFns};
use crate::strbuf::str_eq;
use crate::text::{format_utc, utc_format_text};

verus! {

/// What a manual recording is started with.
pub struct RecordingPlan {
    /// File name under the recordings directory.
    pub file_name: String,
    /// The typed label, when one was typed.
    pub label: Option<String>,
    /// Sample rate stored with the recording.
    pub sample_rate: i32,
    /// Whether the recorder records audio (else raw I/Q).
    pub audio: bool,
}

/// File name of a manual recording of kind `rec_type` started at the UTC
/// stamp `stamp` (`YYYYMMDD_HHMMSS`).
pub open spec fn recording_file_spec(rec_type: Seq<char>, stamp: Seq<char>) -> Seq<char> {
    if rec_type == "audio"@ {
        "audio_"@ + stamp + ".wav"@
    } else {
        "iq_"@ + stamp + ".raw"@
    }
}

/// Sample rate of a manual recording: the receiver's rate for an I/Q
/// recording when it is known (positive), else 48 kHz.
pub open spec fn recording_rate_spec(rec_type: Seq<char>, sample_rate: i32) -> i32 {
    if rec_type == "iq"@ && sample_rate > 0 {
        sample_rate
    } else {
        48000
    }
}

/// Plans a manual recording of kind `rec_type` (`audio` or `iq`) started at
/// `stamp`, with the typed `label` and the receiver's `sample_rate`.
pub fn plan_manual_recording(rec_type: &str, stamp: &str, label: &str, sample_rate: i32) -> (res: RecordingPlan)
    ensures
        res.file_name@ == recording_file_spec(rec_type@, stamp@),
        label@.len() > 0 ==> (res.label matches Some(l) && l@ == label@),
        label@.len() == 0 ==> res.label is None,
        res.sample_rate == recording_rate_spec(rec_type@, sample_rate),
        res.audio == (rec_type@ == "audio"@),
{
    let audio = str_eq(rec_type, "audio");
    let mut file_name = String::new();
    if audio {
        file_name.append("audio_");
        file_name.append(stamp);
        file_name.append(".wav");
    } else {
        file_name.append("iq_");
        file_name.append(stamp);
        file_name.append(".raw");
    }
    assert(file_name@ =~= recording_file_spec(rec_type@, stamp@));
    let label = if label.unicode_len() == 0 { None } else { Some(String::from_str(label)) };
    let rate = if str_eq(rec_type, "iq") && sample_rate > 0 { sample_rate } else { 48000 };
    RecordingPlan { file_name, label, sample_rate: rate, audio }
}


/// The compact UTC stamp (`YYYYMMDD_HHMMSS`) of Unix second `secs` that
/// names a recording, empty when chrono cannot write that instant.
pub open spec fn recording_stamp_spec(secs: i64) -> Seq<char> {
    match utc_format_text(secs, 0, "%Y%m%d_%H%M%S"@) {
        Some(t) => t,
        None => Seq::empty(),
    }
}

/// The compact UTC stamp of Unix second `secs`.
pub fn recording_stamp(secs: i64) -> (res: String)
    ensures
        res@ == recording_stamp_spec(secs),
{
    match format_utc(secs, 0, "%Y%m%d_%H%M%S") {
        Some(t) => t,
        None => String::new(),
    }
}

/// Plans a manual recording started at Unix second `now_secs`.
pub fn plan_recording_at(now_secs: i64, rec_type: &str, label: &str, sample_rate: i32) -> (res: RecordingPlan)
    ensures
        res.file_name@ == recording_file_spec(rec_type@, recording_stamp_spec(now_secs)),
        label@.len() > 0 ==> (res.label matches Some(l) && l@ == label@),
        label@.len() == 0 ==> res.label is None,
        res.sample_rate == recording_rate_spec(rec_type@, sample_rate),
        res.audio == (rec_type@ == "audio"@),
{
    let stamp = recording_stamp(now_secs);
    plan_manual_recording(rec_type, stamp.as_str(), label, sample_rate)
}

} // verus!
