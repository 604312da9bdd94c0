//! Microphone capability: which sample blocks of the Webots `Microphone`
//! device become frames.

use vstd::prelude::*;

verus! {

/// The frame one sample block becomes: the block itself, untouched.
///
/// A silent window yields no samples; publishing an empty frame would claim an
/// observation the sensor did not make.
pub fn read(data: Vec<u8>) -> (frame: Option<Vec<u8>>)
    ensures
        frame == if data@.len() == 0 {
            None::<Vec<u8>>
        } else {
            Some(data)
        },
{
    if data.len() == 0 {
        return None;
    }
    Some(data)
}

} // verus!
