//! The response adapter: the engine's result projected into transport
//! form. Purely structural — every timestamp becomes an ISO-8601 string
//! with UTC offset, everything else passes through unchanged.

use vstd::prelude::*;
use crate::model::{ConditionsModel, DataModel, EntryModel, RankingData, RankingEntry};
use crate::render::{rfc3339_string, spec_rfc3339};

verus! {

/// One ranked identity, transport form.
pub struct RankingItem {
    pub rank: i64,
    pub id: String,
    pub post_count: i64,
    pub latest_post_no: i32,
    pub latest_post_datetime: String,
    pub first_post_no: i32,
    pub first_post_datetime: String,
}

/// Mathematical image of a [`RankingItem`].
#[verifier::ext_equal]
pub ghost struct ItemModel {
    pub rank: int,
    pub id: Seq<char>,
    pub post_count: int,
    pub latest_post_no: i32,
    pub latest_post_datetime: Seq<char>,
    pub first_post_no: i32,
    pub first_post_datetime: Seq<char>,
}

impl View for RankingItem {
    type V = ItemModel;

    open spec fn view(&self) -> ItemModel {
        ItemModel {
            rank: self.rank as int,
            id: self.id@,
            post_count: self.post_count as int,
            latest_post_no: self.latest_post_no,
            latest_post_datetime: self.latest_post_datetime@,
            first_post_no: self.first_post_no,
            first_post_datetime: self.first_post_datetime@,
        }
    }
}

/// The search conditions echoed to the caller, transport form.
pub struct SearchConditions {
    pub id: Option<String>,
    pub main_text: Option<String>,
    pub name_and_trip: Option<String>,
    pub oekaki: Option<bool>,
    pub since: Option<String>,
    pub until: Option<String>,
}

impl View for SearchConditions {
    type V = ConditionsModel;

    open spec fn view(&self) -> ConditionsModel {
        ConditionsModel {
            id: crate::model::view_opt_str(self.id),
            main_text: crate::model::view_opt_str(self.main_text),
            name_and_trip: crate::model::view_opt_str(self.name_and_trip),
            oekaki: self.oekaki,
            since: crate::model::view_opt_str(self.since),
            until: crate::model::view_opt_str(self.until),
        }
    }
}

/// The whole ranking response, transport form.
pub struct RankingResponse {
    pub ranking: Vec<RankingItem>,
    pub total_unique_ids: i64,
    pub search_conditions: SearchConditions,
}

/// Mathematical image of a [`RankingResponse`].
#[verifier::ext_equal]
pub ghost struct ResponseModel {
    pub ranking: Seq<ItemModel>,
    pub total_unique_ids: int,
    pub search_conditions: ConditionsModel,
}

/// View of a vector of items as a sequence of item models.
pub open spec fn items_view(s: Seq<RankingItem>) -> Seq<ItemModel> {
    s.map_values(|x: RankingItem| x@)
}

impl View for RankingResponse {
    type V = ResponseModel;

    open spec fn view(&self) -> ResponseModel {
        ResponseModel {
            ranking: items_view(self.ranking@),
            total_unique_ids: self.total_unique_ids as int,
            search_conditions: self.search_conditions@,
        }
    }
}

/// The transport image of one entry: dates rendered, the rest verbatim.
pub open spec fn spec_item(e: EntryModel) -> ItemModel {
    ItemModel {
        rank: e.rank,
        id: e.id,
        post_count: e.post_count,
        latest_post_no: e.latest_post_no,
        latest_post_datetime: spec_rfc3339(e.latest_post_datetime),
        first_post_no: e.first_post_no,
        first_post_datetime: spec_rfc3339(e.first_post_datetime),
    }
}

/// The transport image of the engine's whole result.
pub open spec fn spec_response(d: DataModel) -> ResponseModel {
    ResponseModel {
        ranking: Seq::new(d.ranking.len(), |i: int| spec_item(d.ranking[i])),
        total_unique_ids: d.total_unique_ids,
        search_conditions: d.search_conditions,
    }
}

impl RankingItem {
    /// Projects one entry; both timestamps become ISO-8601 strings.
    pub fn from_entry(e: &RankingEntry) -> (r: RankingItem)
        requires
            e@.latest_post_datetime.wf(),
            e@.first_post_datetime.wf(),
        ensures
            r@ == spec_item(e@),
    {
        RankingItem {
            rank: e.rank,
            id: e.id.clone(),
            post_count: e.post_count,
            latest_post_no: e.latest_post_no,
            latest_post_datetime: rfc3339_string(&e.latest_post_datetime),
            first_post_no: e.first_post_no,
            first_post_datetime: rfc3339_string(&e.first_post_datetime),
        }
    }
}

impl RankingResponse {
    /// Projects the engine's result; discards nothing, filters nothing.
    #[verifier::loop_isolation(false)]
    pub fn from_data(d: &RankingData) -> (r: RankingResponse)
        requires
            forall|i: int|
                0 <= i < d@.ranking.len() ==> (#[trigger] d@.ranking[i]).latest_post_datetime.wf()
                    && d@.ranking[i].first_post_datetime.wf(),
        ensures
            r@ == spec_response(d@),
    {
        let mut items: Vec<RankingItem> = Vec::new();
        let mut i: usize = 0;
        while i < d.ranking.len()
            invariant
                i <= d.ranking@.len(),
                items@.len() == i,
                items_view(items@) == spec_response(d@).ranking.subrange(0, i as int),
            decreases d.ranking@.len() - i,
        {
            proof {
                assert(d.ranking@[i as int]@ == d@.ranking[i as int]);
            }
            let it = RankingItem::from_entry(&d.ranking[i]);
            items.push(it);
            i = i + 1;
            proof {
                assert(items_view(items@) =~~= spec_response(d@).ranking.subrange(0, i as int));
            }
        }
        proof {
            assert(spec_response(d@).ranking.subrange(0, d.ranking@.len() as int) =~~=
            spec_response(d@).ranking);
        }
        let search_conditions = SearchConditions {
            id: match &d.search_conditions.id {
                Some(s) => Some(s.clone()),
                None => None,
            },
            main_text: match &d.search_conditions.main_text {
                Some(s) => Some(s.clone()),
                None => None,
            },
            name_and_trip: match &d.search_conditions.name_and_trip {
                Some(s) => Some(s.clone()),
                None => None,
            },
            oekaki: d.search_conditions.oekaki,
            since: match &d.search_conditions.since {
                Some(s) => Some(s.clone()),
                None => None,
            },
            until: match &d.search_conditions.until {
                Some(s) => Some(s.clone()),
                None => None,
            },
        };
        let r = RankingResponse {
            ranking: items,
            total_unique_ids: d.total_unique_ids,
            search_conditions,
        };
        proof {
            assert(r@ =~~= spec_response(d@));
        }
        r
    }
}

} // verus!
