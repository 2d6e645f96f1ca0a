use chess_material_studio::favorites::{
    favorite_switch, favorites_query, FavoriteSwitch, GameUrlFilter, OpeningSide,
};

#[test]
fn any_opening_searches_by_theme_only() {
    let q = favorites_query(0, 4000, -100, "", None, None, Some(OpeningSide::White), 100);
    assert_eq!(q.theme_pattern, "%%");
    assert_eq!(q.opening_pattern, None);
    assert_eq!(q.url_filter, GameUrlFilter::Any);
    assert_eq!((q.min_rating, q.max_rating, q.min_popularity, q.limit), (0, 4000, -100, 100));
}

#[test]
fn an_opening_search_filters_by_tag_and_side() {
    let q = favorites_query(1500, 2000, 50, "fork", Some("Italian_Game"), None, Some(OpeningSide::White), 20);
    assert_eq!(q.theme_pattern, "%fork%");
    assert_eq!(q.opening_pattern.as_deref(), Some("%Italian_Game%"));
    assert_eq!(q.url_filter, GameUrlFilter::NamesBlack);
    let q = favorites_query(1500, 2000, 50, "fork", Some("Italian_Game"), Some("Italian_Game_Giuoco_Piano"), Some(OpeningSide::Black), 20);
    assert_eq!(q.opening_pattern.as_deref(), Some("%Italian_Game_Giuoco_Piano%"));
    assert_eq!(q.url_filter, GameUrlFilter::DoesNotNameBlack);
    let q = favorites_query(0, 1, 0, "x", Some("Sicilian"), None, None, 1);
    assert_eq!(q.url_filter, GameUrlFilter::Any);
}

#[test]
fn toggle_favorite_inserts_then_removes() {
    assert_eq!(favorite_switch(false), (FavoriteSwitch::Save, true));
    assert_eq!(favorite_switch(true), (FavoriteSwitch::Remove, false));
}
