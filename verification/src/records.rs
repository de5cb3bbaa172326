//! Entity types: dishes and their ratings, plus the row shapes read from the
//! persistent store and the mathematical views of all of them.

use vstd::prelude::*;

verus! {

/// One scoring event attached to a dish.
pub struct StorableRating {
    pub noodle_id: usize,
    pub rating: usize,
    pub review: Option<String>,
}

/// Mathematical view of a `StorableRating`.
pub ghost struct RatingView {
    pub noodle_id: usize,
    pub rating: usize,
    pub review: Option<Seq<char>>,
}

impl View for StorableRating {
    type V = RatingView;

    open spec fn view(&self) -> RatingView {
        RatingView {
            noodle_id: self.noodle_id,
            rating: self.rating,
            review: match self.review {
                Some(s) => Some(s@),
                None => None,
            },
        }
    }
}

impl Clone for StorableRating {
    fn clone(&self) -> (r: Self)
        ensures
            r@ == self@,
    {
        StorableRating {
            noodle_id: self.noodle_id,
            rating: self.rating,
            review: match &self.review {
                Some(s) => Some(s.clone()),
                None => None,
            },
        }
    }
}

/// The dish entity: in memory its image bytes are always the decoded,
/// ready-to-serve bytes.
pub struct StorableNoodle {
    pub id: usize,
    pub name: String,
    pub description: Option<String>,
    pub img: Vec<u8>,
    pub current_rating: Option<usize>,
    pub ratings: Vec<StorableRating>,
}

/// Mathematical view of a `StorableNoodle`.
pub ghost struct NoodleView {
    pub id: usize,
    pub name: Seq<char>,
    pub description: Option<Seq<char>>,
    pub img: Seq<u8>,
    pub current_rating: Option<usize>,
    pub ratings: Seq<RatingView>,
}

impl View for StorableNoodle {
    type V = NoodleView;

    open spec fn view(&self) -> NoodleView {
        NoodleView {
            id: self.id,
            name: self.name@,
            description: match self.description {
                Some(s) => Some(s@),
                None => None,
            },
            img: self.img@,
            current_rating: self.current_rating,
            ratings: self.ratings@.map_values(|r: StorableRating| r@),
        }
    }
}

impl StorableNoodle {
    /// A freshly uploaded dish: no identifier yet, the supplied rating as
    /// the seed rating, and an empty rating history.
    pub fn new(name: String, description: Option<String>, img: Vec<u8>, rating: usize) -> (r: Self)
        ensures
            r.id == 0,
            r.name@ == name@,
            r@.description == (match description {
                Some(s) => Some(s@),
                None => None::<Seq<char>>,
            }),
            r.img@ == img@,
            r.current_rating == Some(rating),
            r.ratings@.len() == 0,
    {
        StorableNoodle { id: 0, name, description, img, current_rating: Some(rating), ratings: vec![] }
    }
}

/// One row of the dish table, as read from the store.
pub struct DishRow {
    pub id: usize,
    pub name: String,
    pub description: Option<String>,
    pub img: Vec<u8>,
}

/// Mathematical view of a dish-table row.
pub ghost struct DishRec {
    pub id: usize,
    pub name: Seq<char>,
    pub description: Option<Seq<char>>,
    pub img: Seq<u8>,
}

impl View for DishRow {
    type V = DishRec;

    open spec fn view(&self) -> DishRec {
        DishRec {
            id: self.id,
            name: self.name@,
            description: match self.description {
                Some(s) => Some(s@),
                None => None,
            },
            img: self.img@,
        }
    }
}

/// One row of the rating table, as read from the store.
pub struct RatingRow {
    pub id: usize,
    pub dish_id: usize,
    pub value: usize,
    pub review: Option<String>,
}

/// Mathematical view of a rating-table row.
pub ghost struct RatingRec {
    pub id: usize,
    pub dish_id: usize,
    pub value: usize,
    pub review: Option<Seq<char>>,
}

impl View for RatingRow {
    type V = RatingRec;

    open spec fn view(&self) -> RatingRec {
        RatingRec {
            id: self.id,
            dish_id: self.dish_id,
            value: self.value,
            review: match self.review {
                Some(s) => Some(s@),
                None => None,
            },
        }
    }
}

} // verus!
