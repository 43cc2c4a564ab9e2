//! Opening the graphics device.

use crate::error::{internal, MediaError, OsError};
use vstd::prelude::*;

verus! {

/// Feature levels of graphics devices.
pub const LEVEL_11_1: i32 = 0xb100;

pub const LEVEL_11_0: i32 = 0xb000;

pub const LEVEL_10_1: i32 = 0xa100;

/// The feature levels to ask for. Some drivers refuse the whole list where they do not know its
/// first entry; the second attempt leaves that one out.
pub open spec fn levels_wanted(second: bool) -> Seq<i32> {
    if second {
        seq![LEVEL_11_0, LEVEL_10_1]
    } else {
        seq![LEVEL_11_1, LEVEL_11_0, LEVEL_10_1]
    }
}

pub fn feature_levels(second: bool) -> (levels: Vec<i32>)
    ensures
        levels@ == levels_wanted(second),
{
    if second {
        vec![LEVEL_11_0, LEVEL_10_1]
    } else {
        vec![LEVEL_11_1, LEVEL_11_0, LEVEL_10_1]
    }
}

/// What an attempt comes to.
#[derive(Debug)]
pub enum DeviceStep {
    Opened,
    /// Make the second attempt.
    Again,
    Failed(MediaError),
}

/// Judges an attempt: refused, or accepted with or without handing out a device and its context.
pub fn device_created(second: bool, answer: Result<bool, OsError>) -> (r: DeviceStep)
    ensures
        match answer {
            Ok(true) => r is Opened,
            Ok(false) => r matches DeviceStep::Failed(MediaError::Internal(text)) && text@
                == "D3D11CreateDevice 未返回设备"@,
            Err(source) => if second {
                r == DeviceStep::Failed(
                    MediaError::Windows { context: "D3D11CreateDevice", source },
                )
            } else {
                r is Again
            },
        },
{
    match answer {
        Ok(true) => DeviceStep::Opened,
        Ok(false) => DeviceStep::Failed(internal("D3D11CreateDevice 未返回设备")),
        Err(source) => if second {
            DeviceStep::Failed(MediaError::win32("D3D11CreateDevice", source))
        } else {
            DeviceStep::Again
        },
    }
}

/// The levels are asked for from the highest down, and the second attempt asks for all but the
/// highest.
pub proof fn law_second_attempt_leaves_the_highest_out()
    ensures
        levels_wanted(true) == levels_wanted(false).skip(1),
        levels_wanted(false).len() == 3,
        forall|i: int, j: int|
            0 <= i < j < 3 ==> levels_wanted(false)[i] > levels_wanted(false)[j],
        levels_wanted(false)[0] == 0xb100 && levels_wanted(false)[2] == 0xa100,
{
    assert(levels_wanted(true) =~= levels_wanted(false).skip(1));
}

} // verus!
