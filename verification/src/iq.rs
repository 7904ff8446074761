use vstd::prelude::*;

verus! {

/// Tabs of the IQ analyzer window.
#[derive(Clone, Copy, Debug, PartialEq, Eq, Structural)]
pub enum IqViewerTab {
    TimeDomain,
    Spectrum,
    Fingerprint,
}

pub open spec fn iq_tab_label_spec(tab: IqViewerTab) -> Seq<char> {
    match tab {
        IqViewerTab::TimeDomain => "TIME DOMAIN"@,
        IqViewerTab::Spectrum => "SPECTRUM"@,
        IqViewerTab::Fingerprint => "FINGERPRINT"@,
    }
}

/// Caption of an analyzer tab.
pub fn iq_tab_label(tab: IqViewerTab) -> (res: &'static str)
    ensures
        res@ == iq_tab_label_spec(tab),
{
    match tab {
        IqViewerTab::TimeDomain => "TIME DOMAIN",
        IqViewerTab::Spectrum => "SPECTRUM",
        IqViewerTab::Fingerprint => "FINGERPRINT",
    }
}

/// Most I/Q sample pairs loaded from one capture.
pub const IQ_MAX_SAMPLES: usize = 1_000_000;

/// Little-endian 32-bit word at byte offset `i`.
pub open spec fn le_word(b: Seq<u8>, i: int) -> u32 {
    (b[i] as int + 256 * b[i + 1] as int + 65536 * b[i + 2] as int + 16777216 * b[i + 3] as int) as u32
}

/// Number of sample pairs read from a capture of `len` bytes.
pub open spec fn iq_pair_count(len: nat) -> nat {
    if len / 8 < IQ_MAX_SAMPLES { len / 8 } else { IQ_MAX_SAMPLES as nat }
}

/// The sample words of a raw capture: interleaved I and Q 32-bit
/// little-endian floats, taken by their bit patterns, whole pairs only, at
/// most `IQ_MAX_SAMPLES` pairs.
pub open spec fn iq_words_spec(b: Seq<u8>) -> Seq<(u32, u32)> {
    Seq::new(iq_pair_count(b.len()), |k: int| (le_word(b, 8 * k), le_word(b, 8 * k + 4)))
}

fn word_at(b: &[u8], i: usize) -> (w: u32)
    requires
        i + 4 <= b@.len(),
    ensures
        w == le_word(b@, i as int),
{
    let v: u64 = b[i] as u64 + 256 * (b[i + 1] as u64) + 65536 * (b[i + 2] as u64) + 16777216 * (b[i + 3] as u64);
    v as u32
}

/// Splits a raw I/Q capture into (I, Q) pairs of float bit patterns
/// (`f32::from_bits` of each gives the sample).
pub fn iq_sample_words(bytes: &[u8]) -> (res: Vec<(u32, u32)>)
    ensures
        res@ == iq_words_spec(bytes@),
{
    let pairs = bytes.len() / 8;
    let cap = if pairs < IQ_MAX_SAMPLES { pairs } else { IQ_MAX_SAMPLES };
    let mut out: Vec<(u32, u32)> = Vec::new();
    let mut k: usize = 0;
    while k < cap
        invariant
            cap == iq_pair_count(bytes@.len()),
            cap <= bytes@.len() / 8,
            k <= cap,
            out@ =~= iq_words_spec(bytes@).take(k as int),
        decreases cap - k,
    {
        let i = k * 8;
        let wi = word_at(bytes, i);
        let wq = word_at(bytes, i + 4);
        out.push((wi, wq));
        assert(out@ =~= iq_words_spec(bytes@).take(k + 1));
        k = k + 1;
    }
    assert(iq_words_spec(bytes@).take(cap as int) =~= iq_words_spec(bytes@));
    out
}

/// Visible sample range `[start, end)` of the time-domain view: a window of
/// `min(zoom, total)` samples starting at `offset`, pulled back to fit.
pub open spec fn time_window_spec(total: nat, zoom: nat, offset: nat) -> (nat, nat) {
    let window = if zoom < total { zoom } else { total };
    let max_offset = (total - window) as nat;
    let start = if offset < max_offset { offset } else { max_offset };
    let end = if start + window < total { start + window } else { total };
    (start, end as nat)
}

pub fn time_window(total: usize, zoom: usize, offset: usize) -> (res: (usize, usize))
    ensures
        (res.0 as nat, res.1 as nat) == time_window_spec(total as nat, zoom as nat, offset as nat),
        res.0 <= res.1 <= total,
{
    let window = if zoom < total { zoom } else { total };
    let max_offset = total - window;
    let start = if offset < max_offset { offset } else { max_offset };
    let end = if start + window < total { start + window } else { total };
    (start, end)
}

/// Whether `p` is a power of two.
pub open spec fn is_power_of_two(p: nat) -> bool
    decreases p,
{
    if p <= 1 {
        p == 1
    } else {
        p % 2 == 0 && is_power_of_two(p / 2)
    }
}

/// Whether `p` is the smallest power of two not below `n`
/// (what `usize::next_power_of_two` returns).
pub open spec fn is_next_pow2(p: nat, n: nat) -> bool {
    is_power_of_two(p) && p >= n && (p == 1 || p / 2 < n)
}

fn next_pow2(n: usize) -> (p: usize)
    requires
        n <= usize::MAX / 2 + 1,
    ensures
        is_next_pow2(p as nat, n as nat),
{
    let mut p: usize = 1;
    while p < n
        invariant
            n <= usize::MAX / 2 + 1,
            is_power_of_two(p as nat),
            p == 1 || p / 2 < n,
            p >= 1,
        decreases usize::MAX - p,
    {
        assert((2 * p) / 2 == p);
        p = p * 2;
    }
    p
}

/// Sample range `[start, end)` of the spectrum view, for an FFT of `fft`
/// samples, starting at `offset`, pulled back to fit.
pub open spec fn spectrum_range_spec(total: nat, fft: nat, offset: nat) -> (nat, nat) {
    let max_offset: nat = if total > fft { (total - fft) as nat } else { 0 };
    let start = if offset < max_offset { offset } else { max_offset };
    let end = if start + fft < total { start + fft } else { total };
    (start, end as nat)
}

/// The FFT size and sample range `(fft, start, end)` of the spectrum view:
/// the FFT covers the next power of two of `min(zoom, total)`, at least 64.
pub fn spectrum_window(total: usize, zoom: usize, offset: usize) -> (res: (usize, usize, usize))
    requires
        (if zoom < total { zoom } else { total }) <= usize::MAX / 2 + 1,
    ensures
        is_next_pow2(res.0 as nat, (if zoom < total { if zoom > 64 { zoom } else { 64 } } else if total > 64 { total } else { 64 }) as nat),
        (res.1 as nat, res.2 as nat) == spectrum_range_spec(total as nat, res.0 as nat, offset as nat),
        res.1 <= res.2 <= total,
{
    let w = if zoom < total { zoom } else { total };
    let fft = next_pow2(if w > 64 { w } else { 64 });
    let max_offset = total.saturating_sub(fft);
    let start = if offset < max_offset { offset } else { max_offset };
    let end = if start + fft < total { start + fft } else { total };
    (fft, start, end)
}

} // verus!

verus! {

/// Samples shown when a capture is opened.
pub const IQ_DEFAULT_ZOOM: usize = 4096;

/// The I/Q analyzer window: whether it is open, which capture, the view's
/// offset and zoom (in samples), the selected tab, and the fingerprint
/// status line. The capture's samples, frequency and rate stay with the caller.
pub struct IqViewer {
    pub open: bool,
    pub file: Option<String>,
    pub offset: usize,
    pub zoom: usize,
    pub tab: IqViewerTab,
    pub fp_status: Option<String>,
}

impl IqViewer {
    /// A closed analyzer on the time-domain tab.
    pub fn new() -> (res: Self)
        ensures
            !res.open,
            res.file is None,
            res.offset == 0,
            res.zoom == IQ_DEFAULT_ZOOM,
            res.tab == IqViewerTab::TimeDomain,
            res.fp_status is None,
    {
        IqViewer { open: false, file: None, offset: 0, zoom: IQ_DEFAULT_ZOOM, tab: IqViewerTab::TimeDomain, fp_status: None }
    }

    /// Opens capture `path`: back to the start, default zoom, time-domain
    /// tab, no fingerprint status.
    pub fn open_capture(&mut self, path: &str)
        ensures
            final(self).open,
            final(self).file matches Some(f) && f@ == path@,
            final(self).offset == 0,
            final(self).zoom == IQ_DEFAULT_ZOOM,
            final(self).tab == IqViewerTab::TimeDomain,
            final(self).fp_status is None,
    {
        self.open = true;
        self.file = Some(String::from_str(path));
        self.offset = 0;
        self.zoom = IQ_DEFAULT_ZOOM;
        self.tab = IqViewerTab::TimeDomain;
        self.fp_status = None;
    }

    /// Selects a tab.
    pub fn select_tab(&mut self, tab: IqViewerTab)
        ensures
            final(self).tab == tab,
            final(self).open == old(self).open,
            final(self).file == old(self).file,
            final(self).offset == old(self).offset,
            final(self).zoom == old(self).zoom,
            final(self).fp_status == old(self).fp_status,
    {
        self.tab = tab;
    }

    /// The visible time-domain range for a capture of `total` samples.
    pub fn time_range(&self, total: usize) -> (res: (usize, usize))
        ensures
            (res.0 as nat, res.1 as nat) == time_window_spec(total as nat, self.zoom as nat, self.offset as nat),
    {
        time_window(total, self.zoom, self.offset)
    }
}

} // verus!
