//! Scale-factor band boundaries of MPEG-1 Layer III, for each sampling rate.
use vstd::prelude::*;
use crate::types::MP3SamplingRate;

verus! {

/// First spectral line of each long-block band (and 576 after the last).
pub open spec fn sfb_long(sr: MP3SamplingRate) -> Seq<nat> {
    match sr {
        MP3SamplingRate::Hz44100 => seq![
            0nat, 4, 8, 12, 16, 20, 24, 30, 36, 44, 52, 62, 74, 90, 110, 134, 162, 196, 238, 288,
            342, 418, 576,
        ],
        MP3SamplingRate::Hz48000 => seq![
            0nat, 4, 8, 12, 16, 20, 24, 30, 36, 42, 50, 60, 72, 88, 106, 128, 156, 190, 230, 276,
            330, 384, 576,
        ],
        MP3SamplingRate::Hz32000 => seq![
            0nat, 4, 8, 12, 16, 20, 24, 30, 36, 44, 54, 66, 82, 102, 126, 156, 194, 240, 296, 364,
            448, 550, 576,
        ],
    }
}

/// First spectral line of each short-block band within one window (and 192 after the
/// last).
pub open spec fn sfb_short(sr: MP3SamplingRate) -> Seq<nat> {
    match sr {
        MP3SamplingRate::Hz44100 => seq![0nat, 4, 8, 12, 16, 22, 30, 40, 52, 66, 84, 106, 136, 192],
        MP3SamplingRate::Hz48000 => seq![0nat, 4, 8, 12, 16, 22, 28, 38, 50, 64, 80, 100, 126, 192],
        MP3SamplingRate::Hz32000 => seq![0nat, 4, 8, 12, 16, 22, 30, 42, 58, 78, 104, 138, 180, 192],
    }
}

/// Entry `i` of the long-block band table of `sr`.
pub fn sfb_long_index(sr: MP3SamplingRate, i: usize) -> (r: usize)
    requires
        i < 23,
    ensures
        r as nat == sfb_long(sr)[i as int],
{
    let t: [u16; 23] = match sr {
        MP3SamplingRate::Hz44100 => [
            0, 4, 8, 12, 16, 20, 24, 30, 36, 44, 52, 62, 74, 90, 110, 134, 162, 196, 238, 288, 342,
            418, 576,
        ],
        MP3SamplingRate::Hz48000 => [
            0, 4, 8, 12, 16, 20, 24, 30, 36, 42, 50, 60, 72, 88, 106, 128, 156, 190, 230, 276, 330,
            384, 576,
        ],
        MP3SamplingRate::Hz32000 => [
            0, 4, 8, 12, 16, 20, 24, 30, 36, 44, 54, 66, 82, 102, 126, 156, 194, 240, 296, 364, 448,
            550, 576,
        ],
    };
    t[i] as usize
}

/// Entry `i` of the short-block band table of `sr`.
pub fn sfb_short_index(sr: MP3SamplingRate, i: usize) -> (r: usize)
    requires
        i < 14,
    ensures
        r as nat == sfb_short(sr)[i as int],
{
    let t: [u16; 14] = match sr {
        MP3SamplingRate::Hz44100 => [0, 4, 8, 12, 16, 22, 30, 40, 52, 66, 84, 106, 136, 192],
        MP3SamplingRate::Hz48000 => [0, 4, 8, 12, 16, 22, 28, 38, 50, 64, 80, 100, 126, 192],
        MP3SamplingRate::Hz32000 => [0, 4, 8, 12, 16, 22, 30, 42, 58, 78, 104, 138, 180, 192],
    };
    t[i] as usize
}

} // verus!
