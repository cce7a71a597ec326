//! Command-line choices of the checker and what they select.

use vstd::prelude::*;
use crate::check::types::{CaptureMode, DeviceSelector, SharedFormatMode, StreamTiming};

verus! {

#[derive(Clone, Copy, Debug, PartialEq, Eq, Structural)]
pub enum TimingArg {
    Polling,
    Events,
}

#[derive(Clone, Copy, Debug, PartialEq, Eq, Structural)]
pub enum CaptureModeArg {
    Exclusive,
    Shared,
}

#[derive(Clone, Copy, Debug, PartialEq, Eq, Structural)]
pub enum SharedFormatArg {
    Leave,
    SetRestore,
    SetKeep,
}

/// Arguments of the probe command.
#[derive(Clone, Debug)]
pub struct ProbeArgs {
    /// Substring matched against friendly name, interface name, description, or endpoint id.
    pub device: String,
    /// Exact render endpoint id; overrides `device` for playback.
    pub render_id: Option<String>,
    /// Exact capture endpoint id; overrides `device` for recording.
    pub capture_id: Option<String>,
}

pub fn timing_arg(arg: TimingArg) -> (t: StreamTiming)
    ensures
        arg == TimingArg::Polling ==> t == StreamTiming::Polling,
        arg == TimingArg::Events ==> t == StreamTiming::Events,
{
    match arg {
        TimingArg::Polling => StreamTiming::Polling,
        TimingArg::Events => StreamTiming::Events,
    }
}

pub fn capture_mode_arg(arg: CaptureModeArg) -> (m: CaptureMode)
    ensures
        arg == CaptureModeArg::Exclusive ==> m == CaptureMode::Exclusive,
        arg == CaptureModeArg::Shared ==> m == CaptureMode::Shared,
{
    match arg {
        CaptureModeArg::Exclusive => CaptureMode::Exclusive,
        CaptureModeArg::Shared => CaptureMode::Shared,
    }
}

pub fn shared_format_arg(arg: SharedFormatArg) -> (m: SharedFormatMode)
    ensures
        arg == SharedFormatArg::Leave ==> m == SharedFormatMode::Leave,
        arg == SharedFormatArg::SetRestore ==> m == SharedFormatMode::SetRestore,
        arg == SharedFormatArg::SetKeep ==> m == SharedFormatMode::SetKeep,
{
    match arg {
        SharedFormatArg::Leave => SharedFormatMode::Leave,
        SharedFormatArg::SetRestore => SharedFormatMode::SetRestore,
        SharedFormatArg::SetKeep => SharedFormatMode::SetKeep,
    }
}

/// The endpoint selection a probe asks for.
pub fn probe_selector(args: ProbeArgs) -> (s: DeviceSelector)
    ensures
        s.query == args.device,
        s.render_id == args.render_id,
        s.capture_id == args.capture_id,
{
    DeviceSelector { query: args.device, render_id: args.render_id, capture_id: args.capture_id }
}

/// The (rate, bits) cases of the full matrix, in run order: rates from
/// fastest to slowest and, for each, widths from widest to narrowest,
/// leaving out 32-bit above 48 kHz.
pub open spec fn matrix_cases_spec() -> Seq<(u32, u16)> {
    seq![
        (96_000u32, 24u16), (96_000u32, 16u16),
        (88_200u32, 24u16), (88_200u32, 16u16),
        (48_000u32, 32u16), (48_000u32, 24u16), (48_000u32, 16u16),
        (44_100u32, 32u16), (44_100u32, 24u16), (44_100u32, 16u16),
    ]
}

/// Number of matrix cases before width index `w` of rate index `r`.
spec fn cases_before(r: int, w: int) -> int {
    let base: int = if r == 0 { 0 } else if r == 1 { 2 } else if r == 2 { 4 } else if r == 3 { 7 } else { 10 };
    if r < 2 {
        base + if w == 0 { 0 } else { w - 1 }
    } else {
        base + w
    }
}

pub fn matrix_cases() -> (cases: Vec<(u32, u16)>)
    ensures
        cases@ == matrix_cases_spec(),
{
    let rates: [u32; 4] = [96_000, 88_200, 48_000, 44_100];
    let widths: [u16; 3] = [32, 24, 16];
    let mut cases: Vec<(u32, u16)> = Vec::new();
    let mut r: usize = 0;
    while r < 4
        invariant
            r <= 4,
            rates@ == seq![96_000u32, 88_200u32, 48_000u32, 44_100u32],
            widths@ == seq![32u16, 24u16, 16u16],
            cases@ == matrix_cases_spec().take(cases_before(r as int, 0)),
        decreases 4 - r,
    {
        let rate = rates[r];
        let mut w: usize = 0;
        while w < 3
            invariant
                r < 4,
                w <= 3,
                rate == rates@[r as int],
                rates@ == seq![96_000u32, 88_200u32, 48_000u32, 44_100u32],
                widths@ == seq![32u16, 24u16, 16u16],
                cases@ == matrix_cases_spec().take(cases_before(r as int, w as int)),
            decreases 3 - w,
        {
            let bits = widths[w];
            if bits == 32 && !(rate == 44_100 || rate == 48_000) {
                assert(cases_before(r as int, w as int + 1) == cases_before(r as int, w as int));
            } else {
                proof {
                    let k = cases_before(r as int, w as int);
                    assert(matrix_cases_spec()[k] == (rate, bits));
                    assert(matrix_cases_spec().take(k + 1) =~= matrix_cases_spec().take(k).push((rate, bits)));
                }
                cases.push((rate, bits));
            }
            w += 1;
        }
        r += 1;
    }
    proof {
        assert(matrix_cases_spec().take(10) =~= matrix_cases_spec());
    }
    cases
}

} // verus!
