//! The MangaDex records that the pages show, and the rules that pick a title,
//! a description or tag names for a locale, order volumes and chapters, and
//! attach cover art.
//!
//! A localized text is a list of `(locale, text)` entries, in the order in which
//! they were received; a locale occurs in it at most once when it comes from a
//! JSON object, but the rules below are exact for any list.
use vstd::prelude::*;

use crate::error::MangadexServiceError;
use crate::natural::{
    identity_order, is_index_permutation, key_views, keys_in_order, natural_sort_order,
    neighbours_in_natural_order, stable_order,
};
use crate::slug::{safe_str, slug};
use crate::text::{concat3, str_equal};

verus! {

/// A response of the MangaDex API: a list of records or a single one.
#[allow(inconsistent_fields)]
pub enum MangadexResponse<T> {
    Collection { result: String, data: Vec<T> },
    Entity { result: String, data: T },
}

pub struct Manga {
    pub id: String,
    pub _type: String,
    pub attributes: MangaAttributes,
    pub relationships: Vec<Relationship>,
}

pub struct MangaAttributes {
    pub title: Vec<(String, String)>,
    pub alt_titles: Vec<Vec<(String, String)>>,
    pub description: Vec<(String, String)>,
    pub tags: Vec<MangaTag>,
    pub year: Option<i32>,
    pub state: String,
    pub status: String,
    pub publication_demographic: Option<String>,
}

pub struct MangaTag {
    pub attributes: MangaTagAttributes,
}

pub struct MangaTagAttributes {
    pub name: Vec<(String, String)>,
}

pub struct MangaWithCoverArt {
    pub manga: Manga,
    pub cover_art: Option<String>,
}

/// The volumes of a manga, each under its key.
pub struct Volumes(pub Vec<(String, Volume)>);

pub struct Volume {
    pub volume: String,
    pub chapters: Vec<(String, Chapter)>,
}

/// A volume with its chapters in natural order.
pub struct OrderedVolume<'a> {
    pub volume: &'a String,
    pub chapters: Vec<&'a Chapter>,
}

pub struct Chapter {
    pub chapter: String,
    pub id: String,
}

pub struct Relationship {
    pub id: String,
    pub _type: String,
    pub relationship: Option<String>,
}

/// The view of an optional borrowed string.
pub open spec fn opt_str_view(o: Option<&str>) -> Option<Seq<char>> {
    match o {
        Some(s) => Some(s@),
        None => None,
    }
}

/// The view of an optional string.
pub open spec fn opt_string_view(o: Option<String>) -> Option<Seq<char>> {
    match o {
        Some(s) => Some(s@),
        None => None,
    }
}

// ---------------------------------------------------------------------------
// Localized texts

/// Entry `i` of `entries` is the first one for `locale`.
pub open spec fn first_locale_at(entries: Seq<(String, String)>, locale: Seq<char>, i: int) -> bool {
    &&& 0 <= i < entries.len()
    &&& entries[i].0@ == locale
    &&& forall|j: int| 0 <= j < i ==> #[trigger] entries[j].0@ != locale
}

/// Some entry of `entries` is for `locale`.
pub open spec fn has_locale(entries: Seq<(String, String)>, locale: Seq<char>) -> bool {
    exists|i: int| 0 <= i < entries.len() && #[trigger] entries[i].0@ == locale
}

/// The text of the first entry for `locale`, if there is one.
pub open spec fn text_for_locale(entries: Seq<(String, String)>, locale: Seq<char>) -> Option<Seq<char>> {
    if has_locale(entries, locale) {
        Some(entries[choose|i: int| first_locale_at(entries, locale, i)].1@)
    } else {
        None
    }
}

/// The text for `locale`, or else the first text of all; `None` only for no entries.
pub open spec fn text_or_first(entries: Seq<(String, String)>, locale: Seq<char>) -> Option<Seq<char>> {
    match text_for_locale(entries, locale) {
        Some(t) => Some(t),
        None => if entries.len() > 0 {
            Some(entries[0].1@)
        } else {
            None
        },
    }
}

/// The first entry for a locale is unique, and `text_for_locale` gives its text.
pub proof fn lemma_text_for_first_locale(entries: Seq<(String, String)>, locale: Seq<char>, i: int)
    requires
        first_locale_at(entries, locale, i),
    ensures
        has_locale(entries, locale),
        text_for_locale(entries, locale) == Some(entries[i].1@),
{
    assert(entries[i].0@ == locale);
    let j = choose|j: int| first_locale_at(entries, locale, j);
    assert(first_locale_at(entries, locale, j));
    if j < i {
        assert(entries[j].0@ != locale);
    } else if j > i {
        assert(entries[i].0@ != locale);
    }
}

/// The position of the first entry for `locale`.
fn find_locale(entries: &Vec<(String, String)>, locale: &str) -> (res: Option<usize>)
    ensures
        match res {
            Some(i) => first_locale_at(entries@, locale@, i as int),
            None => !has_locale(entries@, locale@),
        },
{
    let mut i: usize = 0;
    while i < entries.len()
        invariant
            i <= entries.len(),
            forall|j: int| 0 <= j < i ==> #[trigger] entries@[j].0@ != locale@,
        decreases entries.len() - i,
    {
        if str_equal(entries[i].0.as_str(), locale) {
            return Some(i);
        }
        i = i + 1;
    }
    None
}

/// The text for `locale`, else the first text of all (the lookup shared by tag
/// names and descriptions).
fn text_or_first_of<'a>(entries: &'a Vec<(String, String)>, locale: &str) -> (res: Option<&'a str>)
    ensures
        opt_str_view(res) == text_or_first(entries@, locale@),
{
    match find_locale(entries, locale) {
        Some(i) => {
            proof {
                lemma_text_for_first_locale(entries@, locale@, i as int);
            }
            Some(entries[i].1.as_str())
        },
        None => {
            if entries.len() > 0 {
                Some(entries[0].1.as_str())
            } else {
                None
            }
        },
    }
}

impl MangaTag {
    /// The tag's name in `locale`, or else its first name.
    pub open spec fn name_in(self, locale: Seq<char>) -> Option<Seq<char>> {
        text_or_first(self.attributes.name@, locale)
    }

    pub fn get_name(&self, locale: &str) -> (res: Option<&str>)
        ensures
            opt_str_view(res) == self.name_in(locale@),
    {
        text_or_first_of(&self.attributes.name, locale)
    }
}

/// Alternative title list `i` is the first one that has a title for `locale`.
pub open spec fn first_alt_title_at(alts: Seq<Vec<(String, String)>>, locale: Seq<char>, i: int) -> bool {
    &&& 0 <= i < alts.len()
    &&& has_locale(alts[i]@, locale)
    &&& forall|j: int| 0 <= j < i ==> !has_locale(#[trigger] alts[j]@, locale)
}

/// The names of the tags, in order, skipping tags that have no name at all.
pub open spec fn tag_names(tags: Seq<MangaTag>, locale: Seq<char>) -> Seq<Seq<char>>
    decreases tags.len(),
{
    if tags.len() == 0 {
        Seq::empty()
    } else {
        let rest = tag_names(tags.drop_last(), locale);
        match tags.last().name_in(locale) {
            Some(n) => rest.push(n),
            None => rest,
        }
    }
}

impl MangaAttributes {
    /// The title shown for `locale`:
    /// - the first main title, when it is in `locale`;
    /// - else the first text of the first alternative-title list that has a title in
    ///   `locale`;
    /// - else the first main title, if any.
    pub open spec fn title_in(self, locale: Seq<char>) -> Option<Seq<char>> {
        let title = self.title@;
        let alts = self.alt_titles@;
        if title.len() > 0 && title[0].0@ == locale {
            Some(title[0].1@)
        } else if exists|i: int| first_alt_title_at(alts, locale, i) {
            Some(alts[choose|i: int| first_alt_title_at(alts, locale, i)]@[0].1@)
        } else if title.len() > 0 {
            Some(title[0].1@)
        } else {
            None
        }
    }

    /// The description in `locale`, or else the first description.
    pub open spec fn description_in(self, locale: Seq<char>) -> Option<Seq<char>> {
        text_or_first(self.description@, locale)
    }

    pub fn get_title(&self, locale: &str) -> (res: Option<&str>)
        ensures
            opt_str_view(res) == self.title_in(locale@),
    {
        let main_title: Option<&str> = if self.title.len() > 0 {
            if str_equal(self.title[0].0.as_str(), locale) {
                return Some(self.title[0].1.as_str());
            }
            Some(self.title[0].1.as_str())
        } else {
            None
        };
        let ghost alts = self.alt_titles@;
        let mut i: usize = 0;
        while i < self.alt_titles.len()
            invariant
                i <= self.alt_titles.len(),
                alts == self.alt_titles@,
                forall|j: int| 0 <= j < i ==> !has_locale(#[trigger] alts[j]@, locale@),
                !(self.title@.len() > 0 && self.title@[0].0@ == locale@),
                opt_str_view(main_title) == if self.title@.len() > 0 {
                    Some(self.title@[0].1@)
                } else {
                    None
                },
            decreases self.alt_titles.len() - i,
        {
            let alt = &self.alt_titles[i];
            match find_locale(alt, locale) {
                Some(p) => {
                    proof {
                        assert(first_alt_title_at(alts, locale@, i as int));
                        let c = choose|c: int| first_alt_title_at(alts, locale@, c);
                        assert(first_alt_title_at(alts, locale@, c));
                        if c < i {
                            assert(!has_locale(alts[c]@, locale@));
                        } else if c > i {
                            assert(!has_locale(alts[i as int]@, locale@));
                        }
                    }
                    return Some(alt[0].1.as_str());
                },
                None => {},
            }
            i = i + 1;
        }
        proof {
            assert forall|c: int| !first_alt_title_at(alts, locale@, c) by {
                if 0 <= c < alts.len() {
                    assert(!has_locale(alts[c]@, locale@));
                }
            }
        }
        main_title
    }

    /// The title for `locale` made safe for links; `None` when there is no title.
    pub fn get_link_title(&self, locale: &str) -> (res: Option<String>)
        ensures
            opt_string_view(res) == match self.title_in(locale@) {
                Some(t) => Some(slug(t)),
                None => None,
            },
    {
        match self.get_title(locale) {
            Some(title) => Some(safe_str(title)),
            None => None,
        }
    }

    pub fn get_description(&self, locale: &str) -> (res: Option<&str>)
        ensures
            opt_str_view(res) == self.description_in(locale@),
    {
        text_or_first_of(&self.description, locale)
    }

    /// The names of all tags in `locale` (each falling back to its first name).
    pub fn get_tags(&self, locale: &str) -> (res: Vec<&str>)
        ensures
            res@.map_values(|s: &str| s@) == tag_names(self.tags@, locale@),
    {
        let mut res: Vec<&str> = Vec::new();
        let ghost tags = self.tags@;
        let mut i: usize = 0;
        while i < self.tags.len()
            invariant
                i <= self.tags.len(),
                tags == self.tags@,
                res@.map_values(|s: &str| s@) == tag_names(tags.take(i as int), locale@),
            decreases self.tags.len() - i,
        {
            let ghost before = res@;
            assert(tags.take(i + 1).drop_last() =~= tags.take(i as int));
            match self.tags[i].get_name(locale) {
                Some(name) => {
                    res.push(name);
                    assert(res@.map_values(|s: &str| s@) =~= before.map_values(|s: &str| s@).push(name@));
                },
                None => {},
            }
            i = i + 1;
        }
        assert(tags.take(self.tags.len() as int) =~= tags);
        res
    }
}

// ---------------------------------------------------------------------------
// Volumes and chapters

/// The chapter keys of a volume's chapters, in the volume's order.
pub open spec fn chapter_keys(chapters: Seq<&Chapter>) -> Seq<Seq<char>> {
    chapters.map_values(|c: &Chapter| c.chapter@)
}

/// The chapter numbers of a volume's chapters as held.
pub open spec fn held_chapter_keys(src: Seq<(String, Chapter)>) -> Seq<Seq<char>> {
    src.map_values(|e: (String, Chapter)| e.1.chapter@)
}

/// `out` holds the chapters of `src`, each once, in natural order of their
/// chapter numbers; chapters whose numbers compare equal keep their order, so
/// chapters already in natural order stay as they are.
pub open spec fn chapters_in_natural_order(out: Seq<&Chapter>, src: Seq<(String, Chapter)>) -> bool {
    &&& out.len() == src.len()
    &&& exists|order: Seq<usize>|
        #![trigger is_index_permutation(order, src.len())]
        {
            &&& is_index_permutation(order, src.len())
            &&& forall|k: int| 0 <= k < out.len() ==> *out[k] == #[trigger] src[order[k] as int].1
            &&& stable_order(held_chapter_keys(src), order)
            &&& neighbours_in_natural_order(held_chapter_keys(src)) ==> order == identity_order(src.len())
        }
    &&& neighbours_in_natural_order(chapter_keys(out))
}

/// The volume names of ordered volumes.
pub open spec fn volume_keys(out: Seq<OrderedVolume>) -> Seq<Seq<char>> {
    out.map_values(|v: OrderedVolume| v.volume@)
}

/// The volume names as held.
pub open spec fn held_volume_keys(src: Seq<(String, Volume)>) -> Seq<Seq<char>> {
    src.map_values(|e: (String, Volume)| e.1.volume@)
}

/// `out` holds the volumes of `src`, each once, in natural order of their names,
/// each with its chapters in natural order; volumes whose names compare equal
/// keep their order, so volumes already in natural order stay as they are.
pub open spec fn volumes_in_natural_order(out: Seq<OrderedVolume>, src: Seq<(String, Volume)>) -> bool {
    &&& out.len() == src.len()
    &&& exists|order: Seq<usize>|
        #![trigger is_index_permutation(order, src.len())]
        {
            &&& is_index_permutation(order, src.len())
            &&& forall|k: int|
                0 <= k < out.len() ==> {
                    &&& *out[k].volume == #[trigger] src[order[k] as int].1.volume
                    &&& chapters_in_natural_order(out[k].chapters@, src[order[k] as int].1.chapters@)
                }
            &&& stable_order(held_volume_keys(src), order)
            &&& neighbours_in_natural_order(held_volume_keys(src)) ==> order == identity_order(src.len())
        }
    &&& neighbours_in_natural_order(volume_keys(out))
}

proof fn lemma_volumes_in_natural_order(out: Seq<OrderedVolume>, src: Seq<(String, Volume)>, order: Seq<usize>)
    requires
        out.len() == src.len(),
        is_index_permutation(order, src.len()),
        forall|m: int| 0 <= m < out.len() ==> {
            &&& *out[m].volume == #[trigger] src[order[m] as int].1.volume
            &&& chapters_in_natural_order(out[m].chapters@, src[order[m] as int].1.chapters@)
        },
        neighbours_in_natural_order(volume_keys(out)),
        stable_order(held_volume_keys(src), order),
        neighbours_in_natural_order(held_volume_keys(src)) ==> order == identity_order(src.len()),
    ensures
        volumes_in_natural_order(out, src),
{
}

/// The chapters of `volume` in natural order of their numbers.
fn ordered_chapters<'a>(volume: &'a Volume) -> (res: Vec<&'a Chapter>)
    ensures
        chapters_in_natural_order(res@, volume.chapters@),
{
    let n = volume.chapters.len();
    let mut keys: Vec<&str> = Vec::new();
    let mut i: usize = 0;
    while i < n
        invariant
            n == volume.chapters@.len(),
            i <= n,
            keys@.len() == i,
            forall|j: int| 0 <= j < i ==> #[trigger] keys@[j]@ == volume.chapters@[j].1.chapter@,
        decreases n - i,
    {
        keys.push(volume.chapters[i].1.chapter.as_str());
        i = i + 1;
    }
    let order = natural_sort_order(&keys);
    let mut res: Vec<&'a Chapter> = Vec::new();
    let mut k: usize = 0;
    while k < n
        invariant
            n == volume.chapters@.len(),
            keys@.len() == n,
            forall|j: int| 0 <= j < n ==> #[trigger] keys@[j]@ == volume.chapters@[j].1.chapter@,
            is_index_permutation(order@, n as nat),
            k <= n,
            res@.len() == k,
            forall|m: int| 0 <= m < k ==> *res@[m] == #[trigger] volume.chapters@[order@[m] as int].1,
        decreases n - k,
    {
        res.push(&volume.chapters[order[k]].1);
        k = k + 1;
    }
    assert(chapter_keys(res@) =~= keys_in_order(keys@, order@));
    assert(key_views(keys@) =~= held_chapter_keys(volume.chapters@));
    assert(is_index_permutation(order@, volume.chapters@.len()));
    res
}

impl Volumes {
    /// The volumes in natural order of their names, each with its chapters in
    /// natural order of their numbers. Items that compare equal keep the order
    /// in which they are held.
    pub fn get_ordered_volumes(&self) -> (res: Vec<OrderedVolume<'_>>)
        ensures
            volumes_in_natural_order(res@, self.0@),
    {
        let n = self.0.len();
        let mut keys: Vec<&str> = Vec::new();
        let mut i: usize = 0;
        while i < n
            invariant
                n == self.0@.len(),
                i <= n,
                keys@.len() == i,
                forall|j: int| 0 <= j < i ==> #[trigger] keys@[j]@ == self.0@[j].1.volume@,
            decreases n - i,
        {
            keys.push(self.0[i].1.volume.as_str());
            i = i + 1;
        }
        let order = natural_sort_order(&keys);
        let mut res: Vec<OrderedVolume<'_>> = Vec::new();
        let mut k: usize = 0;
        while k < n
            invariant
                n == self.0@.len(),
                keys@.len() == n,
                forall|j: int| 0 <= j < n ==> #[trigger] keys@[j]@ == self.0@[j].1.volume@,
                is_index_permutation(order@, n as nat),
                k <= n,
                res@.len() == k,
                forall|m: int| 0 <= m < k ==> {
                    &&& *res@[m].volume == #[trigger] self.0@[order@[m] as int].1.volume
                    &&& chapters_in_natural_order(res@[m].chapters@, self.0@[order@[m] as int].1.chapters@)
                },
            decreases n - k,
        {
            let volume = &self.0[order[k]].1;
            res.push(OrderedVolume { volume: &volume.volume, chapters: ordered_chapters(volume) });
            k = k + 1;
        }
        assert(volume_keys(res@) =~= keys_in_order(keys@, order@));
        assert(key_views(keys@) =~= held_volume_keys(self.0@));
        proof {
            lemma_volumes_in_natural_order(res@, self.0@, order@);
        }
        res
    }

    /// The number of volumes.
    pub fn count(&self) -> (res: usize)
        ensures
            res == self.0@.len(),
    {
        self.0.len()
    }
}

// ---------------------------------------------------------------------------
// Relationships and cover art

/// Relationship `i` is the first one of type `ty`.
pub open spec fn first_related_at(rels: Seq<Relationship>, ty: Seq<char>, i: int) -> bool {
    &&& 0 <= i < rels.len()
    &&& rels[i]._type@ == ty
    &&& forall|j: int| 0 <= j < i ==> #[trigger] rels[j]._type@ != ty
}

/// Some relationship is of type `ty`.
pub open spec fn has_related(rels: Seq<Relationship>, ty: Seq<char>) -> bool {
    exists|i: int| 0 <= i < rels.len() && #[trigger] rels[i]._type@ == ty
}

/// The id of the first relationship of type `ty`, if there is one.
pub open spec fn related_id(rels: Seq<Relationship>, ty: Seq<char>) -> Option<Seq<char>> {
    if has_related(rels, ty) {
        Some(rels[choose|i: int| first_related_at(rels, ty, i)].id@)
    } else {
        None
    }
}

/// `related_id` gives the id of the first relationship of the type, wherever it
/// stands.
pub proof fn lemma_related_id_at(rels: Seq<Relationship>, ty: Seq<char>, i: int)
    requires
        first_related_at(rels, ty, i),
    ensures
        related_id(rels, ty) == Some(rels[i].id@),
{
    assert(rels[i]._type@ == ty);
    let j = choose|j: int| first_related_at(rels, ty, j);
    assert(first_related_at(rels, ty, j));
    if j < i {
        assert(rels[j]._type@ != ty);
    } else if j > i {
        assert(rels[i]._type@ != ty);
    }
}

/// The first relationship of type `ty`.
fn find_related<'a>(rels: &'a Vec<Relationship>, ty: &str) -> (res: Option<&'a String>)
    ensures
        match res {
            Some(id) => related_id(rels@, ty@) == Some(id@),
            None => related_id(rels@, ty@) is None,
        },
{
    let mut i: usize = 0;
    while i < rels.len()
        invariant
            i <= rels.len(),
            forall|j: int| 0 <= j < i ==> #[trigger] rels@[j]._type@ != ty@,
        decreases rels.len() - i,
    {
        if str_equal(rels[i]._type.as_str(), ty) {
            proof {
                lemma_related_id_at(rels@, ty@, i as int);
            }
            return Some(&rels[i].id);
        }
        i = i + 1;
    }
    None
}

/// The relationship type that points at a manga's cover.
pub open spec fn cover_art_type() -> Seq<char> {
    "cover_art"@
}

/// The relationship type that points at a cover's manga.
pub open spec fn manga_type() -> Seq<char> {
    "manga"@
}

/// The ids of the covers of `mangas`, in order, for those that have one.
pub open spec fn cover_art_ids(mangas: Seq<Manga>) -> Seq<Seq<char>>
    decreases mangas.len(),
{
    if mangas.len() == 0 {
        Seq::empty()
    } else {
        let rest = cover_art_ids(mangas.drop_last());
        match related_id(mangas.last().relationships@, cover_art_type()) {
            Some(id) => rest.push(id),
            None => rest,
        }
    }
}

/// The ids of the covers of `mangas` (the first cover relationship of each).
pub fn get_cover_art(mangas: &Vec<Manga>) -> (res: Vec<&String>)
    ensures
        res@.map_values(|s: &String| s@) == cover_art_ids(mangas@),
{
    let mut res: Vec<&String> = Vec::new();
    let ghost all = mangas@;
    let mut i: usize = 0;
    while i < mangas.len()
        invariant
            i <= mangas.len(),
            all == mangas@,
            res@.map_values(|s: &String| s@) == cover_art_ids(all.take(i as int)),
        decreases mangas.len() - i,
    {
        let ghost before = res@;
        assert(all.take(i + 1).drop_last() =~= all.take(i as int));
        match find_related(&mangas[i].relationships, "cover_art") {
            Some(id) => {
                res.push(id);
                assert(res@.map_values(|s: &String| s@) =~= before.map_values(|s: &String| s@).push(id@));
            },
            None => {},
        }
        i = i + 1;
    }
    assert(all.take(mangas.len() as int) =~= all);
    res
}

/// A cover image of a manga.
pub struct Cover {
    pub attributes: CoverAttributes,
    pub relationships: Vec<Relationship>,
}

pub struct CoverAttributes {
    pub file_name: String,
}

impl Cover {
    /// The (manga id, file name) pair of this cover, if it names its manga.
    pub open spec fn entry(self) -> Option<(Seq<char>, Seq<char>)> {
        match related_id(self.relationships@, manga_type()) {
            Some(id) => Some((id, self.attributes.file_name@)),
            None => None,
        }
    }

    pub fn get_entry(&self) -> (res: Option<(String, String)>)
        ensures
            match res {
                Some(pair) => self.entry() == Some((pair.0@, pair.1@)),
                None => self.entry() is None,
            },
    {
        match find_related(&self.relationships, "manga") {
            Some(id) => Some((id.clone(), self.attributes.file_name.clone())),
            None => None,
        }
    }
}

/// The map built by inserting `entries` in order (a later entry for a key
/// replaces an earlier one).
pub open spec fn entries_map(entries: Seq<(String, String)>) -> Map<Seq<char>, Seq<char>>
    decreases entries.len(),
{
    if entries.len() == 0 {
        Map::empty()
    } else {
        entries_map(entries.drop_last()).insert(entries.last().0@, entries.last().1@)
    }
}

/// Entries after position `i` do not touch `key`, so the map up to `i` already
/// gives `key`'s answer.
proof fn lemma_entries_map_prefix(entries: Seq<(String, String)>, i: int, key: Seq<char>)
    requires
        0 <= i <= entries.len(),
        forall|j: int| i <= j < entries.len() ==> #[trigger] entries[j].0@ != key,
    ensures
        entries_map(entries).contains_key(key) == entries_map(entries.take(i)).contains_key(key),
        entries_map(entries)[key] == entries_map(entries.take(i))[key],
    decreases entries.len() - i,
{
    if i < entries.len() {
        let shorter = entries.drop_last();
        assert forall|j: int| i <= j < shorter.len() implies #[trigger] shorter[j].0@ != key by {
            assert(shorter[j] == entries[j]);
        }
        lemma_entries_map_prefix(shorter, i, key);
        assert(shorter.take(i) =~= entries.take(i));
        assert(entries.last().0@ != key);
    } else {
        assert(entries.take(i) =~= entries);
    }
}

/// The cover file of each manga, by manga id.
pub struct CoverArtIndex {
    entries: Vec<(String, String)>,
}

impl View for CoverArtIndex {
    type V = Map<Seq<char>, Seq<char>>;

    closed spec fn view(&self) -> Map<Seq<char>, Seq<char>> {
        entries_map(self.entries@)
    }
}

impl CoverArtIndex {
    /// An index with no covers.
    pub fn new() -> (res: Self)
        ensures
            res@ == Map::<Seq<char>, Seq<char>>::empty(),
    {
        CoverArtIndex { entries: Vec::new() }
    }

    /// Records `file_name` as the cover of `manga_id`, replacing an earlier one.
    pub fn insert(&mut self, manga_id: String, file_name: String)
        ensures
            final(self)@ == old(self)@.insert(manga_id@, file_name@),
    {
        let ghost before = self.entries@;
        self.entries.push((manga_id, file_name));
        assert(self.entries@.drop_last() =~= before);
    }

    /// The cover file of `manga_id`, if it has one.
    pub fn get(&self, manga_id: &str) -> (res: Option<&String>)
        ensures
            res is Some == self@.contains_key(manga_id@),
            res matches Some(f) ==> f@ == self@[manga_id@],
    {
        let mut i: usize = self.entries.len();
        while i > 0
            invariant
                i <= self.entries.len(),
                forall|j: int| i <= j < self.entries@.len() ==> #[trigger] self.entries@[j].0@ != manga_id@,
            decreases i,
        {
            if str_equal(self.entries[i - 1].0.as_str(), manga_id) {
                proof {
                    lemma_entries_map_prefix(self.entries@, i as int, manga_id@);
                    assert(self.entries@.take(i as int).drop_last() =~= self.entries@.take(i - 1));
                }
                return Some(&self.entries[i - 1].1);
            }
            i = i - 1;
        }
        proof {
            lemma_entries_map_prefix(self.entries@, 0, manga_id@);
        }
        None
    }
}

/// The covers' files by manga id; a later cover of a manga replaces an earlier one.
pub open spec fn covers_map(covers: Seq<Cover>) -> Map<Seq<char>, Seq<char>>
    decreases covers.len(),
{
    if covers.len() == 0 {
        Map::empty()
    } else {
        let rest = covers_map(covers.drop_last());
        match covers.last().entry() {
            Some(pair) => rest.insert(pair.0, pair.1),
            None => rest,
        }
    }
}

/// The index of the covers that name their manga.
pub fn cover_art_index(covers: &Vec<Cover>) -> (res: CoverArtIndex)
    ensures
        res@ == covers_map(covers@),
{
    let mut res = CoverArtIndex::new();
    let ghost all = covers@;
    let mut i: usize = 0;
    while i < covers.len()
        invariant
            i <= covers.len(),
            all == covers@,
            res@ == covers_map(all.take(i as int)),
        decreases covers.len() - i,
    {
        assert(all.take(i + 1).drop_last() =~= all.take(i as int));
        match covers[i].get_entry() {
            Some(pair) => {
                let (id, file) = pair;
                res.insert(id, file);
            },
            None => {},
        }
        i = i + 1;
    }
    assert(all.take(covers.len() as int) =~= all);
    res
}

// ---------------------------------------------------------------------------
// Responses

impl<T> MangadexResponse<T> {
    /// The single record of an entity response.
    pub fn into_entity(self) -> (res: Result<T, MangadexServiceError>)
        ensures
            match self {
                MangadexResponse::Entity { data, .. } => res == Ok::<T, MangadexServiceError>(data),
                MangadexResponse::Collection { .. } => res == Err::<T, MangadexServiceError>(
                    MangadexServiceError::InternalError,
                ),
            },
    {
        match self {
            MangadexResponse::Entity { data, .. } => Ok(data),
            MangadexResponse::Collection { .. } => Err(MangadexServiceError::InternalError),
        }
    }

    /// The records of a collection response.
    pub fn into_collection(self) -> (res: Result<Vec<T>, MangadexServiceError>)
        ensures
            match self {
                MangadexResponse::Collection { data, .. } => res == Ok::<Vec<T>, MangadexServiceError>(data),
                MangadexResponse::Entity { .. } => res == Err::<Vec<T>, MangadexServiceError>(
                    MangadexServiceError::InternalError,
                ),
            },
    {
        match self {
            MangadexResponse::Collection { data, .. } => Ok(data),
            MangadexResponse::Entity { .. } => Err(MangadexServiceError::InternalError),
        }
    }
}

/// The cover index from a cover query's response: the covers of a collection;
/// any other response is an internal error.
pub fn covers_from_response(res: MangadexResponse<Cover>) -> (out: Result<CoverArtIndex, MangadexServiceError>)
    ensures
        match res {
            MangadexResponse::Collection { data, .. } => out matches Ok(index) && index@ == covers_map(data@),
            MangadexResponse::Entity { .. } => out == Err::<CoverArtIndex, MangadexServiceError>(
                MangadexServiceError::InternalError,
            ),
        },
{
    match res {
        MangadexResponse::Collection { data, .. } => Ok(cover_art_index(&data)),
        MangadexResponse::Entity { .. } => Err(MangadexServiceError::InternalError),
    }
}

/// The cover path shown for a manga: `"{manga id}/{file name}"`, when the index
/// has a cover for it.
pub open spec fn cover_art_for(manga_id: Seq<char>, covers: Map<Seq<char>, Seq<char>>) -> Option<Seq<char>> {
    if covers.contains_key(manga_id) {
        Some(manga_id + "/"@ + covers[manga_id])
    } else {
        None
    }
}

/// `out` is `mangas`, in order, each with its cover path from `covers`.
pub open spec fn with_cover_art_of(
    out: Seq<MangaWithCoverArt>,
    mangas: Seq<Manga>,
    covers: Map<Seq<char>, Seq<char>>,
) -> bool {
    &&& out.len() == mangas.len()
    &&& forall|k: int|
        0 <= k < out.len() ==> {
            &&& #[trigger] out[k].manga == mangas[k]
            &&& opt_string_view(out[k].cover_art) == cover_art_for(mangas[k].id@, covers)
        }
}

/// Attaches to one manga its cover path.
fn attach_cover_art(manga: Manga, covers: &CoverArtIndex) -> (res: MangaWithCoverArt)
    ensures
        res.manga == manga,
        opt_string_view(res.cover_art) == cover_art_for(manga.id@, covers@),
{
    let cover_art = match covers.get(manga.id.as_str()) {
        Some(file_name) => Some(concat3(manga.id.as_str(), "/", file_name.as_str())),
        None => None,
    };
    MangaWithCoverArt { manga, cover_art }
}

/// Attaches to each manga its cover path.
pub fn with_cover_art(mangas: Vec<Manga>, covers: &CoverArtIndex) -> (res: Vec<MangaWithCoverArt>)
    ensures
        with_cover_art_of(res@, mangas@, covers@),
{
    let ghost all = mangas@;
    let mut rest = mangas;
    let mut res: Vec<MangaWithCoverArt> = Vec::new();
    while rest.len() > 0
        invariant
            res@.len() + rest@.len() == all.len(),
            rest@ == all.skip(res@.len() as int),
            forall|k: int|
                0 <= k < res@.len() ==> {
                    &&& #[trigger] res@[k].manga == all[k]
                    &&& opt_string_view(res@[k].cover_art) == cover_art_for(all[k].id@, covers@)
                },
        decreases rest@.len(),
    {
        let ghost done: int = res@.len() as int;
        let manga = rest.remove(0);
        assert(manga == all[done]);
        assert(rest@ =~= all.skip(done + 1));
        res.push(attach_cover_art(manga, covers));
    }
    res
}

/// The manga of a by-id query with its cover path. The manga is put in a
/// one-item list, given its cover, and taken back out, so the result is always
/// present.
pub fn single_with_cover_art(manga: Manga, covers: &CoverArtIndex) -> (res: Option<MangaWithCoverArt>)
    ensures
        res matches Some(m) && m.manga == manga && opt_string_view(m.cover_art) == cover_art_for(
            manga.id@,
            covers@,
        ),
{
    let mut mangas = with_cover_art(vec![manga], covers);
    mangas.pop()
}

/// The body of a volume query.
pub struct MangaVolumesResponse {
    pub volumes: Volumes,
}

// ---------------------------------------------------------------------------
// Laws

/// A tag (or a description) has a text for every locale, unless it has no text
/// at all; a text in the asked locale wins over the fallback.
pub proof fn lemma_text_present_unless_empty(entries: Seq<(String, String)>, locale: Seq<char>)
    ensures
        text_or_first(entries, locale) is Some <==> entries.len() > 0,
        has_locale(entries, locale) ==> text_or_first(entries, locale) == text_for_locale(entries, locale),
{
    if has_locale(entries, locale) {
        let i = choose|i: int| 0 <= i < entries.len() && #[trigger] entries[i].0@ == locale;
        assert(entries[i].0@ == locale);
    }
}

proof fn lemma_first_alt_title_exists(alts: Seq<Vec<(String, String)>>, locale: Seq<char>, i: int)
    requires
        0 <= i < alts.len(),
        has_locale(alts[i]@, locale),
    ensures
        exists|c: int| first_alt_title_at(alts, locale, c),
    decreases i,
{
    if exists|j: int| 0 <= j < i && has_locale(#[trigger] alts[j]@, locale) {
        let j = choose|j: int| 0 <= j < i && has_locale(#[trigger] alts[j]@, locale);
        lemma_first_alt_title_exists(alts, locale, j);
    } else {
        assert(first_alt_title_at(alts, locale, i));
    }
}

/// A manga shows a title for a locale exactly when it has a main title or an
/// alternative title in that locale.
pub proof fn lemma_title_present(attributes: MangaAttributes, locale: Seq<char>)
    ensures
        attributes.title_in(locale) is Some <==> (attributes.title@.len() > 0 || exists|i: int|
            0 <= i < attributes.alt_titles@.len() && has_locale(#[trigger] attributes.alt_titles@[i]@, locale)),
{
    let alts = attributes.alt_titles@;
    if exists|i: int| 0 <= i < alts.len() && has_locale(#[trigger] alts[i]@, locale) {
        let i = choose|i: int| 0 <= i < alts.len() && has_locale(#[trigger] alts[i]@, locale);
        lemma_first_alt_title_exists(alts, locale, i);
    }
}

/// The tag names of a locale are at most one per tag, one for each tag exactly
/// when every tag has some name.
pub proof fn lemma_tag_names_count(tags: Seq<MangaTag>, locale: Seq<char>)
    ensures
        tag_names(tags, locale).len() <= tags.len(),
        (forall|i: int| 0 <= i < tags.len() ==> (#[trigger] tags[i]).attributes.name@.len() > 0)
            ==> tag_names(tags, locale).len() == tags.len(),
    decreases tags.len(),
{
    if tags.len() > 0 {
        let rest = tags.drop_last();
        lemma_tag_names_count(rest, locale);
        lemma_text_present_unless_empty(tags.last().attributes.name@, locale);
        if forall|i: int| 0 <= i < tags.len() ==> (#[trigger] tags[i]).attributes.name@.len() > 0 {
            assert forall|i: int| 0 <= i < rest.len() implies (#[trigger] rest[i]).attributes.name@.len() > 0 by {
                assert(rest[i] == tags[i]);
            }
            assert(tags[tags.len() - 1] == tags.last());
        }
    }
}

/// The cover of a manga is the file of the last cover that names it, and a manga
/// that no cover names has none.
pub proof fn lemma_last_cover_wins(covers: Seq<Cover>, manga_id: Seq<char>, file_name: Seq<char>, i: int)
    requires
        0 <= i < covers.len(),
        covers[i].entry() == Some((manga_id, file_name)),
        forall|j: int| i < j < covers.len() ==> !(#[trigger] covers[j].entry() matches Some(p) && p.0 == manga_id),
    ensures
        covers_map(covers).contains_key(manga_id),
        covers_map(covers)[manga_id] == file_name,
    decreases covers.len(),
{
    let rest = covers.drop_last();
    if i < covers.len() - 1 {
        assert forall|j: int| i < j < rest.len() implies !(#[trigger] rest[j].entry() matches Some(p) && p.0 == manga_id) by {
            assert(rest[j] == covers[j]);
        }
        assert(rest[i] == covers[i]);
        lemma_last_cover_wins(rest, manga_id, file_name, i);
        assert(covers[covers.len() - 1] == covers.last());
    } else {
        assert(covers[i] == covers.last());
    }
}

/// A manga that no cover names gets no cover.
pub proof fn lemma_no_cover_without_entry(covers: Seq<Cover>, manga_id: Seq<char>)
    requires
        forall|j: int| 0 <= j < covers.len() ==> !(#[trigger] covers[j].entry() matches Some(p) && p.0 == manga_id),
    ensures
        !covers_map(covers).contains_key(manga_id),
    decreases covers.len(),
{
    if covers.len() > 0 {
        let rest = covers.drop_last();
        assert forall|j: int| 0 <= j < rest.len() implies !(#[trigger] rest[j].entry() matches Some(p) && p.0 == manga_id) by {
            assert(rest[j] == covers[j]);
        }
        lemma_no_cover_without_entry(rest, manga_id);
        assert(covers[covers.len() - 1] == covers.last());
    }
}

/// The title shown for a locale is the first main title when that one is in the
/// locale.
pub proof fn lemma_title_main_in_locale(attributes: MangaAttributes, locale: Seq<char>)
    requires
        attributes.title@.len() > 0,
        attributes.title@[0].0@ == locale,
    ensures
        attributes.title_in(locale) == Some(attributes.title@[0].1@),
{
}

/// When the first main title is not in the locale but some alternative-title list
/// has a title in it, the title shown is the first text of the first such list,
/// whatever locale the main title is in.
pub proof fn lemma_title_from_alt_titles(attributes: MangaAttributes, locale: Seq<char>, i: int, j: int)
    requires
        !(attributes.title@.len() > 0 && attributes.title@[0].0@ == locale),
        0 <= i < attributes.alt_titles@.len(),
        0 <= j < attributes.alt_titles@[i]@.len(),
        attributes.alt_titles@[i]@[j].0@ == locale,
        forall|k: int, m: int|
            0 <= k < i && 0 <= m < attributes.alt_titles@[k]@.len()
                ==> #[trigger] attributes.alt_titles@[k]@[m].0@ != locale,
    ensures
        attributes.title_in(locale) == Some(attributes.alt_titles@[i]@[0].1@),
{
    let alts = attributes.alt_titles@;
    assert(alts[i]@[j].0@ == locale);
    assert forall|k: int| 0 <= k < i implies !has_locale(#[trigger] alts[k]@, locale) by {
        assert forall|m: int| 0 <= m < alts[k]@.len() implies alts[k]@[m].0@ != locale by {
            assert(alts[k]@[m].0@ != locale);
        }
    }
    assert(first_alt_title_at(alts, locale, i));
    let c = choose|c: int| first_alt_title_at(alts, locale, c);
    assert(first_alt_title_at(alts, locale, c));
    if c < i {
        assert(!has_locale(alts[c]@, locale));
    } else if c > i {
        assert(!has_locale(alts[i]@, locale));
    }
}

/// With neither the first main title nor any alternative title in the locale, the
/// title shown is the first main title; there is none only for a manga without a
/// main title.
pub proof fn lemma_title_falls_back_to_main(attributes: MangaAttributes, locale: Seq<char>)
    requires
        !(attributes.title@.len() > 0 && attributes.title@[0].0@ == locale),
        forall|k: int, m: int|
            0 <= k < attributes.alt_titles@.len() && 0 <= m < attributes.alt_titles@[k]@.len()
                ==> #[trigger] attributes.alt_titles@[k]@[m].0@ != locale,
    ensures
        attributes.title_in(locale) == if attributes.title@.len() > 0 {
            Some(attributes.title@[0].1@)
        } else {
            None
        },
{
    let alts = attributes.alt_titles@;
    assert forall|c: int| !first_alt_title_at(alts, locale, c) by {
        if 0 <= c < alts.len() {
            assert forall|m: int| 0 <= m < alts[c]@.len() implies alts[c]@[m].0@ != locale by {
                assert(alts[c]@[m].0@ != locale);
            }
        }
    }
}

/// The description shown for a locale is the stored text itself: that of the
/// first description in the locale.
pub proof fn lemma_description_in_locale(attributes: MangaAttributes, locale: Seq<char>, i: int)
    requires
        0 <= i < attributes.description@.len(),
        attributes.description@[i].0@ == locale,
        forall|j: int| 0 <= j < i ==> #[trigger] attributes.description@[j].0@ != locale,
    ensures
        attributes.description_in(locale) == Some(attributes.description@[i].1@),
{
    lemma_text_for_first_locale(attributes.description@, locale, i);
}

/// With no description in the locale, the description shown is the first stored
/// text itself, and there is none only when no description is stored.
pub proof fn lemma_description_falls_back(attributes: MangaAttributes, locale: Seq<char>)
    requires
        forall|j: int| 0 <= j < attributes.description@.len() ==> #[trigger] attributes.description@[j].0@ != locale,
    ensures
        attributes.description_in(locale) == if attributes.description@.len() > 0 {
            Some(attributes.description@[0].1@)
        } else {
            None
        },
{
}

/// A tag's name for a locale is the stored name itself: that of the first name in
/// the locale.
pub proof fn lemma_tag_name_in_locale(tag: MangaTag, locale: Seq<char>, i: int)
    requires
        0 <= i < tag.attributes.name@.len(),
        tag.attributes.name@[i].0@ == locale,
        forall|j: int| 0 <= j < i ==> #[trigger] tag.attributes.name@[j].0@ != locale,
    ensures
        tag.name_in(locale) == Some(tag.attributes.name@[i].1@),
{
    lemma_text_for_first_locale(tag.attributes.name@, locale, i);
}

/// With no name in the locale, a tag's name is its first stored name, and it has
/// none only when no name is stored.
pub proof fn lemma_tag_name_falls_back(tag: MangaTag, locale: Seq<char>)
    requires
        forall|j: int| 0 <= j < tag.attributes.name@.len() ==> #[trigger] tag.attributes.name@[j].0@ != locale,
    ensures
        tag.name_in(locale) == if tag.attributes.name@.len() > 0 {
            Some(tag.attributes.name@[0].1@)
        } else {
            None
        },
{
}

/// A cover names the manga of its first relationship of type `manga`, wherever
/// that relationship stands among the others, together with its file name.
pub proof fn lemma_cover_names_first_manga(cover: Cover, i: int)
    requires
        0 <= i < cover.relationships@.len(),
        cover.relationships@[i]._type@ == "manga"@,
        forall|j: int| 0 <= j < i ==> #[trigger] cover.relationships@[j]._type@ != "manga"@,
    ensures
        cover.entry() == Some((cover.relationships@[i].id@, cover.attributes.file_name@)),
{
    lemma_related_id_at(cover.relationships@, manga_type(), i);
}

/// A cover without a relationship of type `manga` names no manga.
pub proof fn lemma_cover_without_manga(cover: Cover)
    requires
        forall|j: int| 0 <= j < cover.relationships@.len() ==> #[trigger] cover.relationships@[j]._type@ != "manga"@,
    ensures
        cover.entry() is None,
{
}

/// When every tag has some name, the tag names are one per tag, in the tags'
/// order, each the tag's own name for the locale.
pub proof fn lemma_tag_names_in_order(tags: Seq<MangaTag>, locale: Seq<char>)
    requires
        forall|i: int| 0 <= i < tags.len() ==> (#[trigger] tags[i]).attributes.name@.len() > 0,
    ensures
        tag_names(tags, locale).len() == tags.len(),
        forall|i: int| 0 <= i < tags.len() ==> tags[i].name_in(locale) == Some(#[trigger] tag_names(tags, locale)[i]),
    decreases tags.len(),
{
    if tags.len() > 0 {
        let rest = tags.drop_last();
        assert forall|i: int| 0 <= i < rest.len() implies (#[trigger] rest[i]).attributes.name@.len() > 0 by {
            assert(rest[i] == tags[i]);
        }
        lemma_tag_names_in_order(rest, locale);
        assert(tags[tags.len() - 1] == tags.last());
        lemma_text_present_unless_empty(tags.last().attributes.name@, locale);
        assert forall|i: int| 0 <= i < tags.len() implies tags[i].name_in(locale) == Some(
            #[trigger] tag_names(tags, locale)[i],
        ) by {
            if i < rest.len() {
                assert(tags[i] == rest[i]);
            }
        }
    }
}

/// When every manga has a cover relationship, the covers asked for are one per
/// manga, in the mangas' order, each the first cover relationship of its manga.
pub proof fn lemma_cover_art_ids_in_order(mangas: Seq<Manga>)
    requires
        forall|k: int| 0 <= k < mangas.len() ==> has_related((#[trigger] mangas[k]).relationships@, "cover_art"@),
    ensures
        cover_art_ids(mangas).len() == mangas.len(),
        forall|k: int|
            0 <= k < mangas.len() ==> related_id(mangas[k].relationships@, "cover_art"@) == Some(
                #[trigger] cover_art_ids(mangas)[k],
            ),
    decreases mangas.len(),
{
    if mangas.len() > 0 {
        let rest = mangas.drop_last();
        assert forall|k: int| 0 <= k < rest.len() implies has_related((#[trigger] rest[k]).relationships@, "cover_art"@) by {
            assert(rest[k] == mangas[k]);
        }
        lemma_cover_art_ids_in_order(rest);
        assert(mangas[mangas.len() - 1] == mangas.last());
        assert forall|k: int| 0 <= k < mangas.len() implies related_id(mangas[k].relationships@, "cover_art"@) == Some(
            #[trigger] cover_art_ids(mangas)[k],
        ) by {
            if k < rest.len() {
                assert(mangas[k] == rest[k]);
            }
        }
    }
}

/// A manga is shown with the path `{manga id}/{file name}` of the last cover that
/// names it.
pub proof fn lemma_cover_path_of_manga(
    out: Seq<MangaWithCoverArt>,
    mangas: Seq<Manga>,
    covers: Seq<Cover>,
    k: int,
    i: int,
    file_name: Seq<char>,
)
    requires
        with_cover_art_of(out, mangas, covers_map(covers)),
        0 <= k < mangas.len(),
        0 <= i < covers.len(),
        covers[i].entry() == Some((mangas[k].id@, file_name)),
        forall|j: int| i < j < covers.len() ==> !(#[trigger] covers[j].entry() matches Some(p) && p.0 == mangas[k].id@),
    ensures
        out[k].manga == mangas[k],
        opt_string_view(out[k].cover_art) == Some(mangas[k].id@ + "/"@ + file_name),
{
    lemma_last_cover_wins(covers, mangas[k].id@, file_name, i);
    assert(out[k].manga == mangas[k]);
}

/// A manga that no cover names is shown without a cover.
pub proof fn lemma_no_cover_path(out: Seq<MangaWithCoverArt>, mangas: Seq<Manga>, covers: Seq<Cover>, k: int)
    requires
        with_cover_art_of(out, mangas, covers_map(covers)),
        0 <= k < mangas.len(),
        forall|j: int| 0 <= j < covers.len() ==> !(#[trigger] covers[j].entry() matches Some(p) && p.0 == mangas[k].id@),
    ensures
        out[k].manga == mangas[k],
        out[k].cover_art is None,
{
    lemma_no_cover_without_entry(covers, mangas[k].id@);
    assert(out[k].manga == mangas[k]);
}

} // verus!
