//! The models that a provider offers.
use vstd::prelude::*;
use crate::error::ApiError;
use crate::json::field;
use crate::json::lemma_array_view;
use crate::json::same_text;
use crate::json::string_field;
use crate::json::Json;
use crate::json::JsonValue;

verus! {

#[derive(Debug)]
pub struct Model {
    pub id: String,
}

#[derive(Debug)]
pub struct Models {
    pub models: Vec<Model>,
}

pub open spec fn model_ids(models: Seq<Model>) -> Seq<Seq<char>> {
    models.map_values(|m: Model| m.id@)
}

impl Models {
    /// Whether a model of this id is offered.
    pub fn contains(&self, id: &str) -> (r: bool)
        ensures
            r == model_ids(self.models@).contains(id@),
    {
        let mut i: usize = 0;
        while i < self.models.len()
            invariant
                i <= self.models@.len(),
                forall|j: int| 0 <= j < i ==> self.models@[j].id@ != id@,
            decreases self.models@.len() - i,
        {
            if same_text(self.models[i].id.as_str(), id) {
                assert(model_ids(self.models@)[i as int] == id@);
                return true;
            }
            i = i + 1;
        }
        assert forall|j: int| 0 <= j < model_ids(self.models@).len() implies model_ids(self.models@)[j] != id@ by {}
        false
    }
}

pub open spec fn model_id_of(v: JsonValue) -> Option<Seq<char>> {
    if v is Object {
        string_field(v, "id"@)
    } else {
        None
    }
}

pub open spec fn model_list_of(items: Seq<JsonValue>) -> Option<Seq<Seq<char>>>
    decreases items.len(),
{
    if items.len() == 0 {
        Some(Seq::empty())
    } else {
        match (model_list_of(items.drop_last()), model_id_of(items.last())) {
            (Some(l), Some(x)) => Some(l.push(x)),
            _ => None,
        }
    }
}

/// The ids of a model listing: `data` is an array of objects with a string
/// `id`.
pub open spec fn listing_of(v: JsonValue) -> Option<Seq<Seq<char>>> {
    match field(v, "data"@) {
        Some(JsonValue::Array(items)) => model_list_of(items),
        _ => None,
    }
}

proof fn lemma_model_list_fail(items: Seq<JsonValue>, k: int, m: int)
    requires
        0 <= k <= m <= items.len(),
        model_list_of(items.take(k)) is None,
    ensures
        model_list_of(items.take(m)) is None,
    decreases m - k,
{
    if m > k {
        lemma_model_list_fail(items, k, m - 1);
        assert(items.take(m).drop_last() =~= items.take(m - 1));
    }
}

/// A model listing as the provider sent it.
#[derive(Debug)]
pub struct ModelsResponse {
    resp: Json,
}

impl ModelsResponse {
    pub closed spec fn value(&self) -> JsonValue {
        self.resp@
    }

    pub fn new(resp: Json) -> (r: Self)
        ensures
            r.value() == resp@,
    {
        ModelsResponse { resp }
    }

    /// The listing as it came.
    pub fn raw(&self) -> (r: &Json)
        ensures
            r@ == self.value(),
    {
        &self.resp
    }

    /// The models of the listing; an error where it is not a listing.
    pub fn structured(&self) -> (r: Result<Models, ApiError>)
        ensures
            listing_of(self.value()) matches Some(ids) ==> (r matches Ok(m) && model_ids(m.models@) == ids),
            listing_of(self.value()) is None ==> (r matches Err(e) && e is MalformedResponse),
    {
        let items = match self.resp.get("data") {
            Some(Json::Array(items)) => items,
            _ => {
                return Err(ApiError::MalformedResponse {
                    parse_error: "no data array in model listing".to_string(),
                    raw_text: String::new(),
                });
            },
        };
        proof {
            lemma_array_view(*items);
        }
        let ghost vs = items@.map_values(|j: Json| j@);
        let mut models: Vec<Model> = Vec::new();
        let mut i: usize = 0;
        while i < items.len()
            invariant
                i <= items@.len(),
                vs == items@.map_values(|j: Json| j@),
                field(self.value(), "data"@) == Some(JsonValue::Array(vs)),
                model_list_of(vs.take(i as int)) == Some(model_ids(models@)),
            decreases items@.len() - i,
        {
            assert(vs.take(i + 1).drop_last() =~= vs.take(i as int));
            let item = &items[i];
            let id = if item.is_object() {
                item.string_field("id")
            } else {
                None
            };
            match id {
                Some(id) => {
                    let ghost before = models@;
                    models.push(Model { id });
                    assert(model_ids(models@) =~= model_ids(before).push(id@));
                },
                None => {
                    proof {
                        assert(vs.take(i + 1).last() == items@[i as int]@);
                        lemma_model_list_fail(vs, i + 1, vs.len() as int);
                        assert(vs.take(vs.len() as int) =~= vs);
                    }
                    return Err(ApiError::MalformedResponse {
                        parse_error: "a model without an id".to_string(),
                        raw_text: String::new(),
                    });
                },
            }
            i = i + 1;
        }
        assert(vs.take(vs.len() as int) =~= vs);
        Ok(Models { models })
    }
}

} // verus!
