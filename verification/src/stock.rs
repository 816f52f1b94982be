//! Integer market summary data carried alongside the chart data.

use vstd::prelude::*;

verus! {

/// The day's aggregate in/out flow of the leading traders: the per-slot
/// amounts and the largest magnitude used to scale them.
#[derive(Clone, Debug, PartialEq, Eq)]
pub struct MainInOut {
    pub list: Vec<i32>,
    pub max: i32,
}

impl MainInOut {
    pub fn new(list: Vec<i32>, max: i32) -> (r: Self)
        ensures
            r.list == list,
            r.max == max,
    {
        MainInOut { list, max }
    }
}

} // verus!
