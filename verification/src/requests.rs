//! The addresses of MangaDex requests and the local paths of downloaded files.
use vstd::prelude::*;

use crate::mangadex::{cover_art_ids, get_cover_art, Manga};
use crate::text::{concat2, concat3, concat4, join_strings, seq_join};

verus! {

/// The address that asks MangaDex for the covers with the given ids.
pub open spec fn cover_query_uri_of(ids: Seq<Seq<char>>) -> Seq<char> {
    "https://api.mangadex.org/cover?ids[]="@ + seq_join(ids, "&ids[]="@)
}

/// The address that asks for the covers of `mangas` (those that name one).
pub fn cover_query_uri(mangas: &Vec<Manga>) -> (res: String)
    ensures
        res@ == cover_query_uri_of(cover_art_ids(mangas@)),
{
    let ids = get_cover_art(mangas);
    let joined = join_strings(&ids, "&ids[]=");
    concat2("https://api.mangadex.org/cover?ids[]=", joined.as_str())
}

/// The address of a cover image.
pub fn cover_download_uri(manga_id: &str, filename: &str) -> (res: String)
    ensures
        res@ == "https://mangadex.org/covers/"@ + manga_id@ + "/"@ + filename@,
{
    concat4("https://mangadex.org/covers/", manga_id, "/", filename)
}

/// Where a downloaded cover is kept.
pub fn cover_file_path(manga_id: &str, filename: &str) -> (res: String)
    ensures
        res@ == "cover/"@ + manga_id@ + "/"@ + filename@,
{
    concat4("cover/", manga_id, "/", filename)
}

/// The folder of a manga's downloaded covers.
pub fn cover_dir(manga_id: &str) -> (res: String)
    ensures
        res@ == "cover/"@ + manga_id@,
{
    concat2("cover/", manga_id)
}

/// The address of one manga.
pub fn manga_uri(id: &str) -> (res: String)
    ensures
        res@ == "https://api.mangadex.org/manga/"@ + id@,
{
    concat2("https://api.mangadex.org/manga/", id)
}

/// The address of the manga search (the title goes in the query string).
pub fn manga_search_uri() -> (res: String)
    ensures
        res@ == "https://api.mangadex.org/manga"@,
{
    "https://api.mangadex.org/manga".to_owned()
}

/// The address of a manga's volumes and chapters in English.
pub fn volumes_uri(manga_id: &str) -> (res: String)
    ensures
        res@ == "https://api.mangadex.org/manga/"@ + manga_id@
            + "/aggregate?translatedLanguage[]=en"@,
{
    concat3("https://api.mangadex.org/manga/", manga_id, "/aggregate?translatedLanguage[]=en")
}

} // verus!
