//! Page models: the layers and the size of each page of a note.

pub mod json;
pub mod protobuf;

use vstd::prelude::*;
use crate::error::{Failure, NoteError};
use crate::id::{uuid_text_value, PageUuid};
use crate::json::{Dimensions, Layer};
use crate::page_model::json::PageModelLayers;
use crate::utils::{convert_timestamp_to_datetime, parse_json, reversed, timestamp_of, Timestamp};

verus! {

/// The layers and the size of one page.
#[derive(Clone, Debug, PartialEq)]
pub struct PageModel {
    pub page_id: PageUuid,
    pub layers: Vec<Layer>,
    pub created: Timestamp,
    pub modified: Timestamp,
    pub dimensions: Dimensions,
}

/// What the JSON codec made of the two JSON documents of a page model.
pub struct PageModelDocuments {
    pub layers: Result<PageModelLayers, serde_json::Error>,
    pub dimensions: Result<Dimensions, serde_json::Error>,
}

/// Why the record of a page model is rejected, if it is. The layers are
/// decoded first, then the fields in the order of the record.
pub open spec fn page_model_failure(
    record: protobuf::PageModel,
    docs: PageModelDocuments,
) -> Option<Failure> {
    if docs.layers is Err {
        Some(Failure::Json(record.layers_json@))
    } else if uuid_text_value(record.page_uuid@) is None {
        Some(Failure::UuidParse)
    } else if timestamp_of(record.created) is None {
        Some(Failure::InvalidTimestamp(record.created))
    } else if timestamp_of(record.modified) is None {
        Some(Failure::InvalidTimestamp(record.modified))
    } else if docs.dimensions is Err {
        Some(Failure::Json(record.dimensions_json@))
    } else {
        None
    }
}

/// The page model that a record without a fault stands for.
pub open spec fn page_model_value(
    record: protobuf::PageModel,
    docs: PageModelDocuments,
) -> PageModel {
    PageModel {
        page_id: PageUuid(uuid_text_value(record.page_uuid@).unwrap()),
        layers: docs.layers->Ok_0.layer_list,
        created: timestamp_of(record.created).unwrap(),
        modified: timestamp_of(record.modified).unwrap(),
        dimensions: docs.dimensions->Ok_0,
    }
}

/// What the record of a page model stands for: the page model, or why it is
/// rejected.
pub open spec fn page_model_of(record: protobuf::PageModel, docs: PageModelDocuments) -> Result<
    PageModel,
    Failure,
> {
    match page_model_failure(record, docs) {
        Some(k) => Err(k),
        None => Ok(page_model_value(record, docs)),
    }
}

impl PageModel {
    /// Decodes the record of a page model, given what the JSON codec made of
    /// its documents.
    pub fn from_protobuf(page_model: &protobuf::PageModel, docs: PageModelDocuments) -> (r:
        Result<PageModel, NoteError>)
        ensures
            match page_model_failure(*page_model, docs) {
                Some(k) => r is Err && r->Err_0.failure() == k,
                None => r == Ok::<PageModel, NoteError>(page_model_value(*page_model, docs)),
            },
    {
        let layers = match parse_json(docs.layers, page_model.layers_json.as_str()) {
            Ok(v) => v,
            Err(e) => {
                return Err(e);
            },
        };
        let page_id = match PageUuid::from_str(page_model.page_uuid.as_str()) {
            Ok(v) => v,
            Err(e) => {
                return Err(e);
            },
        };
        let created = match convert_timestamp_to_datetime(page_model.created) {
            Ok(v) => v,
            Err(e) => {
                return Err(e);
            },
        };
        let modified = match convert_timestamp_to_datetime(page_model.modified) {
            Ok(v) => v,
            Err(e) => {
                return Err(e);
            },
        };
        let dimensions = match parse_json(docs.dimensions, page_model.dimensions_json.as_str()) {
            Ok(v) => v,
            Err(e) => {
                return Err(e);
            },
        };
        Ok(PageModel { page_id, layers: layers.layer_list, created, modified, dimensions })
    }
}

/// The page models that a list of records stands for, in the order of the
/// records; the first record that is rejected decides the outcome.
pub open spec fn page_models_of(records: Seq<(protobuf::PageModel, PageModelDocuments)>) -> Result<
    Seq<PageModel>,
    Failure,
>
    decreases records.len(),
{
    if records.len() == 0 {
        Ok(Seq::empty())
    } else {
        match page_models_of(records.drop_last()) {
            Err(k) => Err(k),
            Ok(models) => match page_model_of(records.last().0, records.last().1) {
                Err(k) => Err(k),
                Ok(model) => Ok(models.push(model)),
            },
        }
    }
}

/// Where the first `n` records of a list are rejected, the list is rejected
/// for the same reason.
pub proof fn lemma_page_models_fail_on(
    records: Seq<(protobuf::PageModel, PageModelDocuments)>,
    n: int,
)
    requires
        0 <= n <= records.len(),
        page_models_of(records.subrange(0, n)) is Err,
    ensures
        page_models_of(records) == page_models_of(records.subrange(0, n)),
    decreases records.len() - n,
{
    if n == records.len() {
        assert(records.subrange(0, n) =~= records);
    } else {
        assert(records.subrange(0, n + 1).drop_last() =~= records.subrange(0, n));
        lemma_page_models_fail_on(records, n + 1);
    }
}

/// The page models of one file of a note.
#[derive(Clone, Debug, PartialEq)]
pub struct PageModelGroup {
    pub page_models: Vec<PageModel>,
}

impl PageModelGroup {
    /// Decodes the records of a file of page models, each with what the JSON
    /// codec made of its documents.
    pub fn read(records: Vec<(protobuf::PageModel, PageModelDocuments)>) -> (r: Result<
        PageModelGroup,
        NoteError,
    >)
        ensures
            match page_models_of(records@) {
                Ok(models) => r is Ok && r->Ok_0.page_models@ == models,
                Err(k) => r is Err && r->Err_0.failure() == k,
            },
    {
        let ghost all = records@;
        let mut rest = reversed(records);
        let mut page_models: Vec<PageModel> = Vec::new();
        assert(all.subrange(0, 0) =~= Seq::<(protobuf::PageModel, PageModelDocuments)>::empty());
        while rest.len() > 0
            invariant
                all == records@,
                rest@.len() <= all.len(),
                rest@ == all.reverse().subrange(0, rest@.len() as int),
                page_models_of(all.subrange(0, all.len() - rest@.len())) == Ok::<
                    Seq<PageModel>,
                    Failure,
                >(page_models@),
            decreases rest@.len(),
        {
            let ghost done = all.len() - rest@.len();
            let (record, docs) = rest.pop().unwrap();
            proof {
                assert((record, docs) == all[done]);
                assert(all.subrange(0, done + 1).drop_last() =~= all.subrange(0, done));
            }
            match PageModel::from_protobuf(&record, docs) {
                Err(e) => {
                    proof {
                        lemma_page_models_fail_on(all, done + 1);
                    }
                    return Err(e);
                },
                Ok(model) => {
                    page_models.push(model);
                },
            }
        }
        assert(all.subrange(0, all.len() as int) =~= all);
        Ok(PageModelGroup { page_models })
    }
}

} // verus!
