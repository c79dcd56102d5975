use nicoyomi::mangadex::{
    get_cover_art, with_cover_art, covers_from_response, single_with_cover_art, Chapter, Cover,
    CoverArtIndex, CoverAttributes, Manga, MangaAttributes, MangaTag, MangaTagAttributes,
    MangadexResponse, Relationship, Volume, Volumes,
};
use nicoyomi::error::MangadexServiceError;

fn texts(pairs: &[(&str, &str)]) -> Vec<(String, String)> {
    pairs.iter().map(|(k, v)| (k.to_string(), v.to_string())).collect()
}

fn attributes(title: &[(&str, &str)], alts: &[&[(&str, &str)]], description: &[(&str, &str)], tags: &[&[(&str, &str)]]) -> MangaAttributes {
    MangaAttributes {
        title: texts(title),
        alt_titles: alts.iter().map(|a| texts(a)).collect(),
        description: texts(description),
        tags: tags.iter().map(|t| MangaTag { attributes: MangaTagAttributes { name: texts(t) } }).collect(),
        year: Some(1997),
        state: "published".to_string(),
        status: "ongoing".to_string(),
        publication_demographic: None,
    }
}

fn rel(id: &str, ty: &str) -> Relationship {
    Relationship { id: id.to_string(), _type: ty.to_string(), relationship: None }
}

fn manga(id: &str, rels: Vec<Relationship>) -> Manga {
    Manga {
        id: id.to_string(),
        _type: "manga".to_string(),
        attributes: attributes(&[("en", "Title")], &[], &[], &[]),
        relationships: rels,
    }
}

fn cover(manga_id: Option<&str>, file: &str) -> Cover {
    let mut relationships = vec![rel("user-1", "user")];
    if let Some(m) = manga_id {
        relationships.push(rel(m, "manga"));
    }
    Cover { attributes: CoverAttributes { file_name: file.to_string() }, relationships }
}

#[test]
fn tag_name_prefers_locale() {
    let tag = MangaTag { attributes: MangaTagAttributes { name: texts(&[("ja", "Akushon"), ("en", "Action")]) } };
    assert_eq!(tag.get_name("en"), Some("Action"));
}

#[test]
fn tag_name_falls_back_to_first() {
    let tag = MangaTag { attributes: MangaTagAttributes { name: texts(&[("ja", "Akushon"), ("fr", "Action!")]) } };
    assert_eq!(tag.get_name("en"), Some("Akushon"));
}

#[test]
fn tag_name_of_empty_map_is_none() {
    let tag = MangaTag { attributes: MangaTagAttributes { name: vec![] } };
    assert_eq!(tag.get_name("en"), None);
}

#[test]
fn title_uses_main_title_in_locale() {
    let a = attributes(&[("en", "One Piece")], &[&[("en", "Alt One Piece")]], &[], &[]);
    assert_eq!(a.get_title("en"), Some("One Piece"));
}

#[test]
fn title_uses_first_alt_title_list_with_locale() {
    let a = attributes(
        &[("ja-ro", "Wan Pisu")],
        &[&[("ja", "ワンピース")], &[("en", "One Piece")], &[("en", "Second")]],
        &[],
        &[],
    );
    assert_eq!(a.get_title("en"), Some("One Piece"));
}

#[test]
fn title_takes_first_text_of_matching_alt_list() {
    let a = attributes(&[("ja-ro", "Wan Pisu")], &[&[("fr", "Un Morceau"), ("en", "One Piece")]], &[], &[]);
    assert_eq!(a.get_title("en"), Some("Un Morceau"));
}

#[test]
fn title_falls_back_to_main_title() {
    let a = attributes(&[("ja-ro", "Wan Pisu")], &[&[("ja", "ワンピース")]], &[], &[]);
    assert_eq!(a.get_title("en"), Some("Wan Pisu"));
}

#[test]
fn title_without_any_title_is_none() {
    let a = attributes(&[], &[&[("ja", "ワンピース")]], &[], &[]);
    assert_eq!(a.get_title("en"), None);
    let b = attributes(&[], &[&[("ja", "ワンピース")]], &[], &[]);
    assert_eq!(b.get_title("ja"), Some("ワンピース"));
}

#[test]
fn link_title_is_safe_for_urls() {
    let a = attributes(&[("en", "One Piece!")], &[], &[], &[]);
    assert_eq!(a.get_link_title("en"), Some("One-Piece".to_string()));
    let b = attributes(&[("en", "  Re:Zero -- Starting Life in Another World  ")], &[], &[], &[]);
    assert_eq!(b.get_link_title("en"), Some("Re:Zero-Starting-Life-in-Another-World".to_string()));
    let c = attributes(&[("en", "Vol. 10 & 11")], &[], &[], &[]);
    assert_eq!(c.get_link_title("en"), Some("Vol-10-11".to_string()));
}

#[test]
fn link_title_of_only_unsafe_characters_is_empty() {
    let a = attributes(&[("en", "!!!")], &[], &[], &[]);
    assert_eq!(a.get_link_title("en"), Some("".to_string()));
}

#[test]
fn link_title_without_title_is_none() {
    let a = attributes(&[], &[], &[], &[]);
    assert_eq!(a.get_link_title("en"), None);
}

#[test]
fn safe_str_replaces_runs_and_trims_edges() {
    assert_eq!(nicoyomi::slug::safe_str("Hello, World"), "Hello-World");
    assert_eq!(nicoyomi::slug::safe_str("-a-"), "a");
    assert_eq!(nicoyomi::slug::safe_str("Ünïcode"), "n-code");
    assert_eq!(nicoyomi::slug::safe_str("Vol \u{0663}"), "Vol-\u{0663}");
    assert_eq!(nicoyomi::slug::safe_str("--"), "");
    assert_eq!(nicoyomi::slug::safe_str("a--b"), "a-b");
}

#[test]
fn safe_str_is_idempotent() {
    for input in ["One Piece!", "  Re:Zero -- x  ", "-a-", "", "plain"] {
        let once = nicoyomi::slug::safe_str(input);
        assert_eq!(nicoyomi::slug::safe_str(&once), once);
    }
}

#[test]
fn description_prefers_locale_then_first() {
    let a = attributes(&[], &[], &[("ja", "Setsumei"), ("en", "Description")], &[]);
    assert_eq!(a.get_description("en"), Some("Description"));
    assert_eq!(a.get_description("de"), Some("Setsumei"));
    let b = attributes(&[], &[], &[], &[]);
    assert_eq!(b.get_description("en"), None);
}

#[test]
fn tags_in_locale_skip_nameless_tags() {
    let a = attributes(&[], &[], &[], &[&[("en", "Action")], &[], &[("ja", "Komedi"), ("en", "Comedy")], &[("ja", "Romansu")]]);
    assert_eq!(a.get_tags("en"), vec!["Action", "Comedy", "Romansu"]);
}

fn volume(name: &str, chapters: &[&str]) -> Volume {
    Volume {
        volume: name.to_string(),
        chapters: chapters
            .iter()
            .map(|c| (c.to_string(), Chapter { chapter: c.to_string(), id: format!("id-{}", c) }))
            .collect(),
    }
}

#[test]
fn volumes_and_chapters_in_natural_order() {
    let volumes = Volumes(vec![
        ("10".to_string(), volume("10", &["100", "99"])),
        ("none".to_string(), volume("none", &["120"])),
        ("2".to_string(), volume("2", &["10", "9", "9.5", "11"])),
        ("1".to_string(), volume("1", &["1"])),
    ]);
    let ordered = volumes.get_ordered_volumes();
    let names: Vec<&str> = ordered.iter().map(|v| v.volume.as_str()).collect();
    assert_eq!(names, vec!["1", "2", "10", "none"]);
    let chapters: Vec<&str> = ordered[1].chapters.iter().map(|c| c.chapter.as_str()).collect();
    assert_eq!(chapters, vec!["9", "9.5", "10", "11"]);
    assert_eq!(ordered[1].chapters[0].id, "id-9");
    let chapters: Vec<&str> = ordered[2].chapters.iter().map(|c| c.chapter.as_str()).collect();
    assert_eq!(chapters, vec!["99", "100"]);
    assert_eq!(volumes.count(), 4);
    assert_eq!(ordered.len(), volumes.count());
}

#[test]
fn natural_order_keeps_equal_keys_in_place() {
    let volumes = Volumes(vec![
        ("a".to_string(), volume("1", &[])),
        ("b".to_string(), volume(" 1", &[])),
        ("c".to_string(), volume("0", &[])),
    ]);
    let ordered = volumes.get_ordered_volumes();
    let names: Vec<&str> = ordered.iter().map(|v| v.volume.as_str()).collect();
    assert_eq!(names, vec!["0", "1", " 1"]);
}

#[test]
fn empty_volumes() {
    let volumes = Volumes(vec![]);
    assert_eq!(volumes.count(), 0);
    assert!(volumes.get_ordered_volumes().is_empty());
}

#[test]
fn cover_art_ids_take_first_cover_of_each_manga() {
    let mangas = vec![
        manga("m1", vec![rel("a1", "author"), rel("c1", "cover_art"), rel("c1b", "cover_art")]),
        manga("m2", vec![rel("a2", "author")]),
        manga("m3", vec![rel("c3", "cover_art")]),
    ];
    let ids: Vec<&str> = get_cover_art(&mangas).iter().map(|s| s.as_str()).collect();
    assert_eq!(ids, vec!["c1", "c3"]);
}

#[test]
fn cover_entry_needs_a_manga_relationship() {
    assert_eq!(cover(Some("m1"), "f.jpg").get_entry(), Some(("m1".to_string(), "f.jpg".to_string())));
    assert_eq!(cover(None, "f.jpg").get_entry(), None);
}

#[test]
fn cover_index_keeps_the_last_cover_of_a_manga() {
    let res = MangadexResponse::Collection {
        result: "ok".to_string(),
        data: vec![cover(Some("m1"), "old.jpg"), cover(None, "x.jpg"), cover(Some("m2"), "two.png"), cover(Some("m1"), "new.jpg")],
    };
    let index = covers_from_response(res).ok().unwrap();
    assert_eq!(index.get("m1").map(|s| s.as_str()), Some("new.jpg"));
    assert_eq!(index.get("m2").map(|s| s.as_str()), Some("two.png"));
    assert_eq!(index.get("m3"), None);
}

#[test]
fn cover_entity_response_is_internal_error() {
    let res = MangadexResponse::Entity { result: "ok".to_string(), data: cover(Some("m1"), "f.jpg") };
    assert_eq!(covers_from_response(res).err(), Some(MangadexServiceError::InternalError));
}

#[test]
fn cover_index_insert_then_get() {
    let mut index = CoverArtIndex::new();
    assert_eq!(index.get("m"), None);
    index.insert("m".to_string(), "a.jpg".to_string());
    index.insert("m".to_string(), "b.jpg".to_string());
    assert_eq!(index.get("m").map(|s| s.as_str()), Some("b.jpg"));
}

#[test]
fn mangas_get_their_cover_paths() {
    let mut index = CoverArtIndex::new();
    index.insert("m1".to_string(), "cover.jpg".to_string());
    let out = with_cover_art(vec![manga("m1", vec![]), manga("m2", vec![])], &index);
    assert_eq!(out.len(), 2);
    assert_eq!(out[0].manga.id, "m1");
    assert_eq!(out[0].cover_art.as_deref(), Some("m1/cover.jpg"));
    assert_eq!(out[1].manga.id, "m2");
    assert_eq!(out[1].cover_art, None);
    let one = single_with_cover_art(manga("m1", vec![]), &index).unwrap();
    assert_eq!(one.cover_art.as_deref(), Some("m1/cover.jpg"));
}

#[test]
fn responses_unwrap_by_kind() {
    let entity: MangadexResponse<u8> = MangadexResponse::Entity { result: "ok".to_string(), data: 7 };
    assert_eq!(entity.into_entity().ok(), Some(7));
    let entity: MangadexResponse<u8> = MangadexResponse::Entity { result: "ok".to_string(), data: 7 };
    assert_eq!(entity.into_collection().err(), Some(MangadexServiceError::InternalError));
    let list: MangadexResponse<u8> = MangadexResponse::Collection { result: "ok".to_string(), data: vec![1, 2] };
    assert_eq!(list.into_collection().ok(), Some(vec![1, 2]));
    let list: MangadexResponse<u8> = MangadexResponse::Collection { result: "ok".to_string(), data: vec![1, 2] };
    assert_eq!(list.into_entity().err(), Some(MangadexServiceError::InternalError));
}
