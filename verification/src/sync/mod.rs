//! State shared between the host, the editor and the audio thread.

use vstd::prelude::*;

pub mod change_info;
pub mod patch_bank;
pub mod patch_bytes;
pub mod patch_name;

verus! {

/// The flag by which the host tells that the tempo it reports is valid.
pub const TEMPO_VALID: i32 = 1024;

/// The tempo that the host reports, if it says that it is valid. The tempo
/// is handed through as it came.
pub fn valid_tempo(flags: i32, tempo: u64) -> (bpm: Option<u64>)
    ensures
        bpm == if flags & TEMPO_VALID != 0 {
            Some(tempo)
        } else {
            None
        },
{
    if (flags & TEMPO_VALID) != 0 {
        Some(tempo)
    } else {
        None
    }
}

} // verus!
