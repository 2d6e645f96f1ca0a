//! The search of the favourite puzzles: which filters the query applies.
//! The favourites database itself is read around this plan.

use vstd::prelude::*;
use crate::text::{push_str, string_from_chars};

verus! {

/// The side whose opening a search asks for.
#[derive(Clone, Copy, Debug, PartialEq, Eq, Structural)]
pub enum OpeningSide {
    Any,
    White,
    Black,
}

/// How the favourites are filtered by the game they come from: a White
/// opening is found in games whose address names black, a Black opening in
/// the others.
#[derive(Clone, Copy, Debug, PartialEq, Eq, Structural)]
pub enum GameUrlFilter {
    Any,
    NamesBlack,
    DoesNotNameBlack,
}

/// The filters of a favourites search: the rating range, the least
/// popularity, `LIKE` patterns for the theme and the opening, the filter on
/// the game's address, and the number of rows asked for.
#[derive(Debug)]
pub struct FavoritesQuery {
    pub min_rating: i32,
    pub max_rating: i32,
    pub min_popularity: i32,
    pub theme_pattern: String,
    pub opening_pattern: Option<String>,
    pub url_filter: GameUrlFilter,
    pub limit: i64,
}

/// A `LIKE` pattern that finds a tag anywhere.
pub open spec fn contains_pattern(tag: Seq<char>) -> Seq<char> {
    seq!['%'] + tag + seq!['%']
}

/// The opening tag searched for: the variation's name when one is chosen,
/// else the opening's.
pub open spec fn opening_tag(opening: Seq<char>, variation: Option<Seq<char>>) -> Seq<char> {
    match variation {
        Some(v) => v,
        None => opening,
    }
}

/// The address filter for an opening search: none when any opening will
/// do, else by the side asked for (no side means any).
pub open spec fn url_filter_spec(opening_chosen: bool, side: Option<OpeningSide>) -> GameUrlFilter {
    if !opening_chosen {
        GameUrlFilter::Any
    } else {
        match side {
            Some(OpeningSide::White) => GameUrlFilter::NamesBlack,
            Some(OpeningSide::Black) => GameUrlFilter::DoesNotNameBlack,
            _ => GameUrlFilter::Any,
        }
    }
}

fn pattern(tag: &str) -> (res: String)
    ensures
        res@ == contains_pattern(tag@),
{
    let mut out: Vec<char> = Vec::new();
    out.push('%');
    push_str(&mut out, tag);
    out.push('%');
    string_from_chars(&out)
}

/// Plans a favourites search. `opening` is the opening's tag, `None` when
/// any opening will do; `variation` is the chosen variation's name, `None`
/// when any variation will do.
pub fn favorites_query(
    min_rating: i32,
    max_rating: i32,
    min_popularity: i32,
    theme_tag: &str,
    opening: Option<&str>,
    variation: Option<&str>,
    side: Option<OpeningSide>,
    result_limit: usize,
) -> (res: FavoritesQuery)
    ensures
        res.min_rating == min_rating,
        res.max_rating == max_rating,
        res.min_popularity == min_popularity,
        res.theme_pattern@ == contains_pattern(theme_tag@),
        match opening {
            None => res.opening_pattern is None,
            Some(o) => (res.opening_pattern matches Some(p) && p@ == contains_pattern(
                opening_tag(
                    o@,
                    match variation {
                        Some(v) => Some(v@),
                        None => None,
                    },
                ),
            )),
        },
        res.url_filter == url_filter_spec(opening is Some, side),
        res.limit == result_limit as i64,
{
    let opening_pattern = match opening {
        None => None,
        Some(o) => match variation {
            Some(v) => Some(pattern(v)),
            None => Some(pattern(o)),
        },
    };
    let url_filter = if opening.is_none() {
        GameUrlFilter::Any
    } else {
        match side {
            Some(OpeningSide::White) => GameUrlFilter::NamesBlack,
            Some(OpeningSide::Black) => GameUrlFilter::DoesNotNameBlack,
            _ => GameUrlFilter::Any,
        }
    };
    FavoritesQuery {
        min_rating,
        max_rating,
        min_popularity,
        theme_pattern: pattern(theme_tag),
        opening_pattern,
        url_filter,
        limit: result_limit as i64,
    }
}

/// What switching a puzzle's favourite mark does, from whether it is a
/// favourite now: remove it (and answer `false`) or save it (and answer
/// `true`).
#[derive(Clone, Copy, Debug, PartialEq, Eq, Structural)]
pub enum FavoriteSwitch {
    Remove,
    Save,
}

/// Decides the switch of a favourite mark; the answer is the new mark.
pub fn favorite_switch(is_favorite: bool) -> (res: (FavoriteSwitch, bool))
    ensures
        res.1 == !is_favorite,
        is_favorite ==> res.0 == FavoriteSwitch::Remove,
        !is_favorite ==> res.0 == FavoriteSwitch::Save,
{
    if is_favorite {
        (FavoriteSwitch::Remove, false)
    } else {
        (FavoriteSwitch::Save, true)
    }
}

} // verus!
