use vstd::prelude::*;

use crate::json::{json_plan_fields, spec_plan_fields};

verus! {

/// One planned clip: a source time range in whole seconds of the movie and
/// the narration spoken over it. Immutable once parsed.
#[derive(Debug, Clone)]
pub struct ClipPlan {
    pub start: i32,
    pub end: i32,
    pub narration: String,
}

impl ClipPlan {
    /// A usable entry: a positive start and a properly ordered range.
    /// Entries that fail this are skipped during production, never fatal.
    pub open spec fn valid(&self) -> bool {
        self.start > 0 && self.end > self.start
    }
}

/// The planner's ordered clip list; insertion order is narrative order.
#[derive(Debug, Clone, Default)]
pub struct ClipPlanList {
    pub items: Vec<ClipPlan>,
}

/// Every named field fits the 32-bit bounds a typed parse enforces.
pub open spec fn plan_fields_in_range(fs: Seq<(i64, i64, Seq<char>)>) -> bool {
    forall|i: int|
        0 <= i < fs.len() ==> {
            let t = #[trigger] fs[i];
            -0x8000_0000 <= t.0 <= 0x7FFF_FFFF && -0x8000_0000 <= t.1 <= 0x7FFF_FFFF
        }
}

/// The items carry exactly the named fields, in array order.
pub open spec fn plan_items_match(items: Seq<ClipPlan>, fs: Seq<(i64, i64, Seq<char>)>) -> bool {
    &&& items.len() == fs.len()
    &&& forall|i: int|
        0 <= i < fs.len() ==> {
            let it = #[trigger] items[i];
            it.start == fs[i].0 && it.end == fs[i].1 && it.narration@ == fs[i].2
        }
}

impl ClipPlanList {
    /// Parse the planner's strict JSON shape
    /// `{"clips":[{"start":s,"end":e,"narration":"..."}, ...]}`: the result
    /// carries exactly the named clip fields, in order, and parsing fails
    /// exactly when the text does not have that shape or a field falls
    /// outside 32 bits.
    pub fn from_json(text: &str) -> (r: Option<ClipPlanList>)
        ensures
            r matches Some(pl) ==> (spec_plan_fields(text@) matches Some(fs)
                && plan_fields_in_range(fs) && plan_items_match(pl.items@, fs)),
            r is None ==> (spec_plan_fields(text@) matches Some(fs) ==> !plan_fields_in_range(
                fs,
            )),
    {
        let fields = match json_plan_fields(text) {
            Some(f) => f,
            None => {
                return None;
            },
        };
        let ghost fs = spec_plan_fields(text@)->0;
        proof {
            assert(fs =~= fields@.map_values(|t: (i64, i64, String)| (t.0, t.1, t.2@)));
        }
        let n = fields.len();
        let mut items: Vec<ClipPlan> = Vec::new();
        let mut i: usize = 0;
        while i < n
            invariant
                spec_plan_fields(text@) == Some(fs),
                fs == fields@.map_values(|t: (i64, i64, String)| (t.0, t.1, t.2@)),
                i <= n == fields@.len(),
                fs.len() == n,
                items@.len() == i,
                forall|k: int|
                    0 <= k < i ==> {
                        let it = #[trigger] items@[k];
                        &&& it.start == fs[k].0
                        &&& it.end == fs[k].1
                        &&& it.narration@ == fs[k].2
                        &&& -0x8000_0000 <= fs[k].0 <= 0x7FFF_FFFF
                        &&& -0x8000_0000 <= fs[k].1 <= 0x7FFF_FFFF
                    },
            decreases n - i,
        {
            proof {
                assert(fs[i as int] == (fields@[i as int].0, fields@[i as int].1, fields@[
                    i as int
                ].2@));
            }
            let entry = &fields[i];
            let start64 = entry.0;
            let end64 = entry.1;
            if start64 < -0x8000_0000 || start64 > 0x7FFF_FFFF || end64 < -0x8000_0000 || end64
                > 0x7FFF_FFFF {
                assert(!plan_fields_in_range(fs));
                return None;
            }
            let narration = entry.2.clone();
            items.push(ClipPlan { start: start64 as i32, end: end64 as i32, narration });
            i += 1;
        }
        proof {
            assert forall|k: int| 0 <= k < fs.len() implies {
                let t = #[trigger] fs[k];
                -0x8000_0000 <= t.0 <= 0x7FFF_FFFF && -0x8000_0000 <= t.1 <= 0x7FFF_FFFF
            } by {
                assert(items@[k].start == fs[k].0);
            }
            assert(plan_items_match(items@, fs));
        }
        Some(ClipPlanList { items })
    }
}

} // verus!
