//! The persisted hero record and the field set a write operation carries.

use vstd::prelude::*;

verus! {

/// A stored hero row. `id` is assigned by the table on creation and never
/// reused; `real_name` is `None` when unknown (never an empty string);
/// `spotted_photo` is the path the uploaded photograph was saved under.
pub struct Hero {
    pub id: i32,
    pub fantasy_name: String,
    pub real_name: Option<String>,
    pub spotted_photo: String,
    pub strength_level: i32,
}

/// The mathematical value of a stored hero row.
pub ghost struct HeroV {
    pub id: int,
    pub fantasy_name: Seq<char>,
    pub real_name: Option<Seq<char>>,
    pub spotted_photo: Seq<char>,
    pub strength_level: int,
}

impl View for Hero {
    type V = HeroV;

    open spec fn view(&self) -> HeroV {
        HeroV {
            id: self.id as int,
            fantasy_name: self.fantasy_name@,
            real_name: match self.real_name {
                Some(s) => Some(s@),
                None => None,
            },
            spotted_photo: self.spotted_photo@,
            strength_level: self.strength_level as int,
        }
    }
}

impl Clone for Hero {
    fn clone(&self) -> (r: Self)
        ensures
            r@ == self@,
    {
        Hero {
            id: self.id,
            fantasy_name: self.fantasy_name.clone(),
            real_name: match &self.real_name {
                Some(s) => Some(s.clone()),
                None => None,
            },
            spotted_photo: self.spotted_photo.clone(),
            strength_level: self.strength_level,
        }
    }
}

/// The mutable fields of a hero, as a write operation supplies them:
/// everything a row holds except the id.
pub struct NewHero {
    pub fantasy_name: String,
    pub real_name: Option<String>,
    pub spotted_photo: String,
    pub strength_level: i32,
}

/// The mathematical value of a field set.
pub ghost struct NewHeroV {
    pub fantasy_name: Seq<char>,
    pub real_name: Option<Seq<char>>,
    pub spotted_photo: Seq<char>,
    pub strength_level: int,
}

impl View for NewHero {
    type V = NewHeroV;

    open spec fn view(&self) -> NewHeroV {
        NewHeroV {
            fantasy_name: self.fantasy_name@,
            real_name: match self.real_name {
                Some(s) => Some(s@),
                None => None,
            },
            spotted_photo: self.spotted_photo@,
            strength_level: self.strength_level as int,
        }
    }
}

/// The values of a sequence of hero rows.
pub open spec fn heroes_view(s: Seq<Hero>) -> Seq<HeroV> {
    s.map_values(|h: Hero| h@)
}

/// The mutable fields of a stored row.
pub open spec fn new_fields(h: HeroV) -> NewHeroV {
    NewHeroV {
        fantasy_name: h.fantasy_name,
        real_name: h.real_name,
        spotted_photo: h.spotted_photo,
        strength_level: h.strength_level,
    }
}

/// The row that storing the field set `h` under the id `id` produces.
pub open spec fn hero_of(id: int, h: NewHeroV) -> HeroV {
    HeroV {
        id: id,
        fantasy_name: h.fantasy_name,
        real_name: h.real_name,
        spotted_photo: h.spotted_photo,
        strength_level: h.strength_level,
    }
}

} // verus!
