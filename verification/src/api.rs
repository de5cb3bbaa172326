//! The shapes exchanged with the HTTP layer: the upload form, the rating
//! form, and the serialized dish with its image as base64 text.

use vstd::prelude::*;

use base64::Engine;

use crate::aggregate::clone_string;
use crate::records::{StorableNoodle, StorableRating};
use crate::store::opt_view;
use crate::upload::{b64_decode_spec, decode_image_for_processing, payload_part};

verus! {

/// An uploaded dish, as the HTTP layer hands it over: the image still
/// base64 (or data-URL) text, the rating the seed rating.
pub struct Noodle<'r> {
    pub name: &'r str,
    pub description: Option<&'r str>,
    pub img: &'r str,
    pub rating: usize,
}

/// A rating request for an existing dish.
pub struct RateNoodle {
    pub noodle_id: usize,
    pub rating: usize,
}

/// A dish as serialized to the HTTP layer: image as base64 text, ratings
/// as their bare values.
pub struct ApiNoodle {
    pub id: usize,
    pub name: String,
    pub description: Option<String>,
    pub img: String,
    pub current_rating: Option<usize>,
    pub ratings: Vec<usize>,
}

/// What the standard base64 alphabet encodes `b` as.
pub uninterp spec fn b64_encode_spec(b: Seq<u8>) -> Seq<char>;

/// Relies on base64's `Engine::encode` with the `STANDARD` engine: the
/// result depends on the input bytes alone.
#[verifier::external_body]
fn b64_encode(b: &Vec<u8>) -> (r: String)
    ensures
        r@ == b64_encode_spec(b@),
{
    base64::engine::general_purpose::STANDARD.encode(b)
}

/// Turn an uploaded form into a storable dish: decode its image text and
/// seed it with the supplied rating.  Fails exactly when the image text
/// cannot be decoded, before any store interaction.
pub fn build_noodle(noodle: &Noodle) -> (r: Result<StorableNoodle, String>)
    ensures
        r matches Ok(n) ==> payload_part(noodle.img@) matches Some(p) && b64_decode_spec(p)
            == Some(n.img@) && n.id == 0 && n.name@ == noodle.name@ && n@.description == (
        match noodle.description {
            Some(d) => Some(d@),
            None => None::<Seq<char>>,
        }) && n.current_rating == Some(noodle.rating) && n.ratings@.len() == 0,
        r is Err ==> payload_part(noodle.img@) is None || (payload_part(noodle.img@) matches Some(
            p,
        ) && b64_decode_spec(p) is None),
{
    let bytes = match decode_image_for_processing(noodle.img) {
        Ok(b) => b,
        Err(e) => {
            return Err(e);
        },
    };
    let description = match noodle.description {
        Some(d) => Some(d.to_owned()),
        None => None,
    };
    Ok(StorableNoodle::new(noodle.name.to_owned(), description, bytes, noodle.rating))
}

/// Serialize one fetched dish: base64-encode its image and keep only the
/// bare value of each rating, in the same order.
pub fn to_api(n: &StorableNoodle) -> (r: ApiNoodle)
    ensures
        r.id == n.id,
        r.name@ == n.name@,
        opt_view(r.description) == n@.description,
        r.img@ == b64_encode_spec(n.img@),
        r.current_rating == n.current_rating,
        r.ratings@ == n.ratings@.map_values(|x: StorableRating| x.rating),
{
    let mut values: Vec<usize> = Vec::new();
    let mut j: usize = 0;
    proof {
        assert(values@ =~= n.ratings@.map_values(|x: StorableRating| x.rating).take(0));
    }
    while j < n.ratings.len()
        invariant
            j <= n.ratings.len(),
            values@ == n.ratings@.map_values(|x: StorableRating| x.rating).take(j as int),
        decreases n.ratings.len() - j,
    {
        values.push(n.ratings[j].rating);
        proof {
            let m = n.ratings@.map_values(|x: StorableRating| x.rating);
            assert(m.take(j + 1) =~= m.take(j as int).push(m[j as int]));
        }
        j += 1;
    }
    proof {
        let m = n.ratings@.map_values(|x: StorableRating| x.rating);
        assert(m.take(m.len() as int) =~= m);
    }
    let description = match &n.description {
        Some(s) => Some(clone_string(s)),
        None => None,
    };
    ApiNoodle {
        id: n.id,
        name: clone_string(&n.name),
        description,
        img: b64_encode(&n.img),
        current_rating: n.current_rating,
        ratings: values,
    }
}

/// Serialize a fetched collection, preserving its order.
pub fn to_api_list(ns: &Vec<StorableNoodle>) -> (r: Vec<ApiNoodle>)
    ensures
        r@.len() == ns@.len(),
        forall|i: int|
            0 <= i < ns@.len() ==> {
                &&& (#[trigger] r@[i]).id == ns@[i].id
                &&& r@[i].name@ == ns@[i].name@
                &&& opt_view(r@[i].description) == ns@[i]@.description
                &&& r@[i].img@ == b64_encode_spec(ns@[i].img@)
                &&& r@[i].current_rating == ns@[i].current_rating
                &&& r@[i].ratings@ == ns@[i].ratings@.map_values(|x: StorableRating| x.rating)
            },
{
    let mut out: Vec<ApiNoodle> = Vec::new();
    let mut i: usize = 0;
    while i < ns.len()
        invariant
            i <= ns.len(),
            out@.len() == i,
            forall|k: int|
                0 <= k < i ==> {
                    &&& (#[trigger] out@[k]).id == ns@[k].id
                    &&& out@[k].name@ == ns@[k].name@
                    &&& opt_view(out@[k].description) == ns@[k]@.description
                    &&& out@[k].img@ == b64_encode_spec(ns@[k].img@)
                    &&& out@[k].current_rating == ns@[k].current_rating
                    &&& out@[k].ratings@ == ns@[k].ratings@.map_values(
                        |x: StorableRating| x.rating,
                    )
                },
        decreases ns.len() - i,
    {
        out.push(to_api(&ns[i]));
        i += 1;
    }
    out
}

/// Liveness probe.
pub fn health() -> (r: &'static str)
    ensures
        r@ == "OK"@,
{
    "OK"
}

} // verus!
