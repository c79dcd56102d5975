//! The decisions of the web pages: what the search page searches for, and what
//! the manga page shows.
use vstd::prelude::*;

use crate::mangadex::MangaWithCoverArt;

verus! {

/// The query string of the search page.
pub struct SearchQuery {
    pub query: Option<String>,
}

/// A finished download, as the downloads page lists it (it lists none yet).
pub struct Download {}

/// The title to search for: nothing for a missing or empty query.
pub fn search_title(query: &Option<String>) -> (res: Option<&String>)
    ensures
        match query {
            Some(q) => if q@.len() == 0 {
                res is None
            } else {
                res == Some(q)
            },
            None => res is None,
        },
{
    match query {
        Some(q) => {
            if q.as_str().is_empty() {
                None
            } else {
                Some(q)
            }
        },
        None => None,
    }
}

/// The text shown in the search box: the query, or nothing.
pub fn query_text(query: Option<String>) -> (res: String)
    ensures
        res@ == match query {
            Some(q) => q@,
            None => Seq::<char>::empty(),
        },
{
    match query {
        Some(q) => q,
        None => String::new(),
    }
}

/// The manga that the manga page shows: the one found, if the query worked.
pub fn found_manga<E>(res: Result<Option<MangaWithCoverArt>, E>) -> (out: Option<MangaWithCoverArt>)
    ensures
        match res {
            Ok(m) => out == m,
            Err(_) => out is None,
        },
{
    match res {
        Ok(m) => m,
        Err(_) => None,
    }
}

/// The manga whose volumes the manga page lists: the shown one, if any.
pub fn volumes_manga_id(manga: &Option<MangaWithCoverArt>) -> (res: Option<&String>)
    ensures
        match manga {
            Some(m) => res == Some(&m.manga.id),
            None => res is None,
        },
{
    match manga {
        Some(m) => Some(&m.manga.id),
        None => None,
    }
}

} // verus!
