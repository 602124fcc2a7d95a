//! The options of a query of a view.

use super::all_docs::AllDocsOptions;
use super::{set_flag, with_flag};
use crate::value::{Number, NumberView, RawValue, Tree};
use vstd::prelude::*;

verus! {

/// How stale the results of a query may be.
#[derive(Clone, Copy, Debug, PartialEq, Eq, Structural)]
pub enum StaleOption {
    /// Answer at once, even from results that are out of date.
    Stale,
    /// Answer at once, and bring the results up to date afterwards.
    UpdateAfter,
}

impl StaleOption {
    /// The name the host knows the option by.
    pub open spec fn name(self) -> Seq<char> {
        match self {
            StaleOption::Stale => "ok"@,
            StaleOption::UpdateAfter => "update_after"@,
        }
    }

    pub fn to_raw(&self) -> (r: RawValue)
        ensures
            r@ == Tree::Text(self.name()),
    {
        match self {
            StaleOption::Stale => RawValue::text("ok"),
            StaleOption::UpdateAfter => RawValue::text("update_after"),
        }
    }
}

/// Every option is off unless it says otherwise.
#[derive(Debug, PartialEq, Eq)]
pub struct QueryOptions {
    /// A query takes the options of a listing.
    pub all_docs: AllDocsOptions,
    /// Let the reduce function group the results by key.
    pub group: bool,
    /// How many elements of a key to group by, where the keys are arrays.
    pub group_level: Option<usize>,
    pub stale: Option<StaleOption>,
}

impl Default for QueryOptions {
    fn default() -> (r: QueryOptions)
        ensures
            r.encoded() == Tree::Object(Seq::empty()),
            r.all_docs.inclusive_end,
            !r.group,
            r.group_level is None,
            r.stale is None,
    {
        QueryOptions { all_docs: AllDocsOptions::default(), group: false, group_level: None, stale: None }
    }
}

impl QueryOptions {
    /// The object the options are sent as: the options of the listing, then
    /// those of the query itself. A group level too large for the host to
    /// count in whole numbers is not sent.
    pub open spec fn encoded(&self) -> Tree {
        let listed = self.all_docs.encoded();
        let grouped = with_flag(listed, "group"@, self.group);
        let levelled = match self.group_level {
            Some(level) => if level <= i64::MAX {
                grouped.set("group_level"@, Tree::Number(NumberView::Integer(level as int)))
            } else {
                grouped
            },
            None => grouped,
        };
        match self.stale {
            Some(stale) => levelled.set("stale"@, Tree::Text(stale.name())),
            None => levelled,
        }
    }

    pub fn to_raw(&self) -> (r: RawValue)
        ensures
            r@ == self.encoded(),
    {
        let mut object = self.all_docs.to_raw();
        set_flag(&mut object, "group", self.group);
        match self.group_level {
            Some(level) => {
                let wide: u64 = level as u64;
                if wide <= 0x7fff_ffff_ffff_ffffu64 {
                    object.set("group_level", RawValue::Number(Number::Integer(wide as i64)));
                }
            },
            None => {},
        }
        match self.stale {
            Some(stale) => {
                object.set("stale", stale.to_raw());
            },
            None => {},
        }
        object
    }
}

} // verus!
