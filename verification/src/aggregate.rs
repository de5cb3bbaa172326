//! Read-side aggregation: fold the two row tables into one entity per
//! dish, ratings collected in arrival (identifier) order, images decoded
//! back to their ready-to-serve bytes.

use vstd::prelude::*;

use crate::codec::{denormalize, denormalize_spec};
use crate::records::{DishRec, DishRow, NoodleView, RatingRec, RatingRow, RatingView,
    StorableNoodle, StorableRating};

verus! {

/// The views of the ratings that reference dish `id`, in table order.
pub open spec fn ratings_for(rs: Seq<RatingRec>, id: usize) -> Seq<RatingView> {
    rs.filter(|x: RatingRec| x.dish_id == id).map_values(|x: RatingRec| rating_view_of(x))
}

/// How a rating row appears on a fetched dish.
pub open spec fn rating_view_of(x: RatingRec) -> RatingView {
    RatingView { noodle_id: x.dish_id, rating: x.value, review: x.review }
}

/// How a dish row appears after aggregation: its ratings gathered in
/// order, its image denormalized, and no current rating (that field is
/// populated only at creation, never on fetch).
pub open spec fn noodle_of(d: DishRec, rs: Seq<RatingRec>) -> NoodleView {
    NoodleView {
        id: d.id,
        name: d.name,
        description: d.description,
        img: denormalize_spec(d.img),
        current_rating: None,
        ratings: ratings_for(rs, d.id),
    }
}

/// The aggregated result of a fetch: one entity per dish row, in the dish
/// table's (ascending identifier) order.
pub open spec fn fetch_spec(ds: Seq<DishRec>, rs: Seq<RatingRec>) -> Seq<NoodleView> {
    ds.map_values(|d: DishRec| noodle_of(d, rs))
}

/// Filtering a sequence extended by one element keeps the filtered prefix
/// and appends the element exactly when it passes the predicate.
pub proof fn lemma_filter_push<A>(s: Seq<A>, x: A, p: spec_fn(A) -> bool)
    ensures
        s.push(x).filter(p) == if p(x) {
            s.filter(p).push(x)
        } else {
            s.filter(p)
        },
{
    reveal(Seq::filter);
    assert(s.push(x).drop_last() =~= s);
    assert(s.push(x).last() == x);
}

/// Appending a rating row appends its view to the fetched rating sequence
/// of the dish it references — in arrival order — and leaves every other
/// dish's rating sequence unchanged.
pub proof fn lemma_ratings_append_order(rs: Seq<RatingRec>, x: RatingRec, id: usize)
    ensures
        x.dish_id == id ==> ratings_for(rs.push(x), id) == ratings_for(rs, id).push(
            rating_view_of(x),
        ),
        x.dish_id != id ==> ratings_for(rs.push(x), id) == ratings_for(rs, id),
{
    let p = |r: RatingRec| r.dish_id == id;
    lemma_filter_push(rs, x, p);
    if p(x) {
        assert(rs.filter(p).push(x).map_values(|r: RatingRec| rating_view_of(r)) =~= rs.filter(
            p,
        ).map_values(|r: RatingRec| rating_view_of(r)).push(rating_view_of(x)));
    }
}

/// A dish that no rating row references aggregates to an empty rating
/// sequence: it is returned, not omitted, and nothing is fabricated.
pub proof fn lemma_no_ratings_empty(rs: Seq<RatingRec>, id: usize)
    requires
        forall|j: int| 0 <= j < rs.len() ==> (#[trigger] rs[j]).dish_id != id,
    ensures
        ratings_for(rs, id) == Seq::<RatingView>::empty(),
    decreases rs.len(),
{
    if rs.len() == 0 {
        reveal(Seq::filter);
        assert(ratings_for(rs, id) =~= Seq::<RatingView>::empty());
    } else {
        let prefix = rs.drop_last();
        assert forall|j: int| 0 <= j < prefix.len() implies (#[trigger] prefix[j]).dish_id
            != id by {
            assert(rs[j].dish_id != id);
        }
        lemma_no_ratings_empty(prefix, id);
        assert(prefix.push(rs.last()) =~= rs);
        lemma_ratings_append_order(prefix, rs.last(), id);
    }
}

/// A dish no earlier rating references, stored together with one seed
/// rating, aggregates to exactly that seed: a rating sequence of length
/// one holding the seed's value.
pub proof fn lemma_seed_rating_fetch(rs: Seq<RatingRec>, x: RatingRec, d: DishRec)
    requires
        x.dish_id == d.id,
        forall|j: int| 0 <= j < rs.len() ==> (#[trigger] rs[j]).dish_id != d.id,
    ensures
        noodle_of(d, rs.push(x)).ratings == seq![rating_view_of(x)],
{
    lemma_no_ratings_empty(rs, d.id);
    lemma_ratings_append_order(rs, x, d.id);
    assert(Seq::<RatingView>::empty().push(rating_view_of(x)) =~= seq![rating_view_of(x)]);
}

/// Storing one dish with one seed rating into an empty store and fetching
/// yields exactly one aggregated dish, whose rating history is the seed
/// alone.
pub proof fn lemma_store_seed_into_empty_fetch(d: DishRec, x: RatingRec)
    requires
        x.dish_id == d.id,
    ensures
        fetch_spec(seq![d], seq![x]).len() == 1,
        fetch_spec(seq![d], seq![x])[0].id == d.id,
        fetch_spec(seq![d], seq![x])[0].ratings == seq![rating_view_of(x)],
{
    lemma_seed_rating_fetch(Seq::<RatingRec>::empty(), x, d);
    assert(Seq::<RatingRec>::empty().push(x) =~= seq![x]);
    assert(fetch_spec(seq![d], seq![x])[0] == noodle_of(d, seq![x]));
}

/// Fold dish rows and rating rows, as read from the store, into one
/// `StorableNoodle` per dish: a left join grouped by dish identifier, so a
/// dish with no ratings is kept with an empty rating sequence.
pub fn aggregate_rows(dishes: &Vec<DishRow>, ratings: &Vec<RatingRow>) -> (r: Vec<StorableNoodle>)
    ensures
        r@.map_values(|n: StorableNoodle| n@) == fetch_spec(
            dishes@.map_values(|d: DishRow| d@),
            ratings@.map_values(|x: RatingRow| x@),
        ),
{
    let ghost ds = dishes@.map_values(|d: DishRow| d@);
    let ghost rs = ratings@.map_values(|x: RatingRow| x@);
    let mut out: Vec<StorableNoodle> = Vec::new();
    let mut i: usize = 0;
    proof {
        assert(out@.map_values(|n: StorableNoodle| n@) =~= fetch_spec(ds, rs).take(0));
    }
    while i < dishes.len()
        invariant
            i <= dishes.len(),
            ds == dishes@.map_values(|d: DishRow| d@),
            rs == ratings@.map_values(|x: RatingRow| x@),
            out@.map_values(|n: StorableNoodle| n@) == fetch_spec(ds, rs).take(i as int),
        decreases dishes.len() - i,
    {
        let d = &dishes[i];
        let did = d.id;
        let ghost dv = ds[i as int];
        proof {
            assert(dv == dishes@[i as int]@);
        }
        let mut picked: Vec<StorableRating> = Vec::new();
        let mut j: usize = 0;
        proof {
            assert(picked@.map_values(|x: StorableRating| x@) =~= ratings_for(rs.take(0), dv.id));
            reveal(Seq::filter);
        }
        while j < ratings.len()
            invariant
                j <= ratings.len(),
                i < dishes.len(),
                ds == dishes@.map_values(|d2: DishRow| d2@),
                rs == ratings@.map_values(|x: RatingRow| x@),
                dv == ds[i as int],
                did == dv.id,
                picked@.map_values(|x: StorableRating| x@) == ratings_for(rs.take(j as int), dv.id),
            decreases ratings.len() - j,
        {
            let row = &ratings[j];
            let ghost xv = rs[j as int];
            let ghost before = picked@;
            proof {
                assert(xv == ratings@[j as int]@);
                assert(dv == dishes@[i as int]@);
            }
            if row.dish_id == did {
                let review = match &row.review {
                    Some(s) => Some(clone_string(s)),
                    None => None,
                };
                let item = StorableRating { noodle_id: row.dish_id, rating: row.value, review };
                proof {
                    assert(item@ == rating_view_of(xv));
                }
                picked.push(item);
                proof {
                    assert(picked@.map_values(|x: StorableRating| x@) =~= before.map_values(
                        |x: StorableRating| x@,
                    ).push(item@));
                }
            }
            proof {
                assert(rs.take(j + 1) =~= rs.take(j as int).push(xv));
                lemma_ratings_append_order(rs.take(j as int), xv, dv.id);
            }
            j += 1;
        }
        let img = denormalize(&d.img);
        let description = match &d.description {
            Some(s) => Some(clone_string(s)),
            None => None,
        };
        let noodle = StorableNoodle {
            id: d.id,
            name: clone_string(&d.name),
            description,
            img,
            current_rating: None,
            ratings: picked,
        };
        proof {
            assert(rs.take(rs.len() as int) =~= rs);
            assert(noodle@ == noodle_of(dv, rs));
            assert(fetch_spec(ds, rs).take(i + 1) =~= fetch_spec(ds, rs).take(i as int).push(
                noodle_of(dv, rs),
            ));
            assert(out@.push(noodle).map_values(|n: StorableNoodle| n@) =~= out@.map_values(
                |n: StorableNoodle| n@,
            ).push(noodle@));
        }
        out.push(noodle);
        i += 1;
    }
    proof {
        assert(fetch_spec(ds, rs).take(ds.len() as int) =~= fetch_spec(ds, rs));
    }
    out
}

/// Clone a string, preserving its characters.
pub fn clone_string(s: &String) -> (r: String)
    ensures
        r@ == s@,
{
    s.as_str().to_owned()
}

} // verus!
