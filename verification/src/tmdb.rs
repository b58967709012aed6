//! The media-catalog search passthrough: building the search URLs and
//! mapping the catalog's raw records to the records the client receives.
//!
//! The HTTP calls and the JSON parsing stay outside the library; it is
//! handed the already-parsed result pages as plain values.

use vstd::prelude::*;

use crate::decfmt::{dec_str, push_dec_u32};
use crate::urlenc::{form_enc, push_chars, push_form_enc};
use crate::{ApiError, ApiResult};

verus! {

pub const POSTER_BASE_URL: &'static str = "https://image.tmdb.org/t/p/w600_and_h900_bestv2";

pub const BACKDROP_BASE_URL: &'static str = "https://image.tmdb.org/t/p/w1920_and_h1080_bestv2";

/// The catalog's read credential, handed to the transport layer.
pub struct ReadAccessToken(pub String);

/// One search hit as the client receives it.
#[derive(Debug, Clone, PartialEq, Eq)]
pub struct Media {
    pub backdrop_url: Option<String>,
    pub id: u32,
    pub media_type: String,
    pub key: String,
    pub original_title: String,
    pub overview: String,
    pub poster_url: Option<String>,
    pub title: String,
    pub date: String,
}

/// A page of search hits as the client receives it.
#[derive(Debug, Clone, PartialEq, Eq)]
pub struct SearchResult {
    pub page: u32,
    pub results: Vec<Media>,
    pub total_pages: u32,
    pub total_results: u32,
}

/// One raw movie record of the catalog's response.
#[derive(Debug, Clone, PartialEq, Eq)]
pub struct Movie {
    pub backdrop_path: Option<String>,
    pub id: u32,
    pub original_title: String,
    pub overview: String,
    pub poster_path: Option<String>,
    pub title: String,
    pub release_date: String,
}

/// One raw series record of the catalog's response.
#[derive(Debug, Clone, PartialEq, Eq)]
pub struct Tv {
    pub backdrop_path: Option<String>,
    pub id: u32,
    pub original_name: String,
    pub overview: String,
    pub poster_path: Option<String>,
    pub name: String,
    pub first_air_date: String,
}

/// A parsed catalog response page for a movie search.
#[derive(Debug, Clone, PartialEq, Eq)]
pub struct MoviePage {
    pub page: u32,
    pub results: Vec<Movie>,
    pub total_pages: u32,
    pub total_results: u32,
}

/// A parsed catalog response page for a series search.
#[derive(Debug, Clone, PartialEq, Eq)]
pub struct TvPage {
    pub page: u32,
    pub results: Vec<Tv>,
    pub total_pages: u32,
    pub total_results: u32,
}

/// What came back from a movie search: a page, a structurally valid
/// rejection, or a transport fault.
#[derive(Debug, Clone, PartialEq, Eq)]
pub enum MovieSearchOutcome {
    Results(MoviePage),
    Rejected(String),
    TransportFault(String),
}

/// What came back from a series search.
#[derive(Debug, Clone, PartialEq, Eq)]
pub enum TvSearchOutcome {
    Results(TvPage),
    Rejected(String),
    TransportFault(String),
}

/// An image path qualified with its base URL; absent stays absent.
pub fn map_path(path: &Option<String>, base_url: &str) -> (r: Option<String>)
    ensures
        r is Some <==> path is Some,
        path matches Some(p) ==> (r matches Some(u) && u@ == base_url@ + p@),
{
    match path {
        None => None,
        Some(p) => {
            let mut u: Vec<char> = Vec::new();
            push_chars(&mut u, base_url);
            push_chars(&mut u, p.as_str());
            Some(crate::chars::string_from_chars(u))
        },
    }
}

/// How a raw movie record appears to the client.
pub open spec fn is_media_of_movie(m: Media, v: Movie) -> bool {
    &&& (m.backdrop_url is Some <==> v.backdrop_path is Some)
    &&& (v.backdrop_path matches Some(p) ==> m.backdrop_url matches Some(u) && u@
        == BACKDROP_BASE_URL@ + p@)
    &&& m.id == v.id
    &&& m.media_type@ == "movie"@
    &&& m.key@ == "movie:"@ + dec_str(v.id as nat)
    &&& m.original_title@ == v.original_title@
    &&& m.overview@ == v.overview@
    &&& (m.poster_url is Some <==> v.poster_path is Some)
    &&& (v.poster_path matches Some(p) ==> m.poster_url matches Some(u) && u@ == POSTER_BASE_URL@
        + p@)
    &&& m.title@ == v.title@
    &&& m.date@ == v.release_date@
}

/// How a raw series record appears to the client.
pub open spec fn is_media_of_tv(m: Media, v: Tv) -> bool {
    &&& (m.backdrop_url is Some <==> v.backdrop_path is Some)
    &&& (v.backdrop_path matches Some(p) ==> m.backdrop_url matches Some(u) && u@
        == BACKDROP_BASE_URL@ + p@)
    &&& m.id == v.id
    &&& m.media_type@ == "tv"@
    &&& m.key@ == "tv:"@ + dec_str(v.id as nat)
    &&& m.original_title@ == v.original_name@
    &&& m.overview@ == v.overview@
    &&& (m.poster_url is Some <==> v.poster_path is Some)
    &&& (v.poster_path matches Some(p) ==> m.poster_url matches Some(u) && u@ == POSTER_BASE_URL@
        + p@)
    &&& m.title@ == v.name@
    &&& m.date@ == v.first_air_date@
}

fn media_from_movie(movie: Movie) -> (r: Media)
    ensures
        is_media_of_movie(r, movie),
{
    let mut key: Vec<char> = Vec::new();
    push_chars(&mut key, "movie:");
    push_dec_u32(&mut key, movie.id);
    Media {
        backdrop_url: map_path(&movie.backdrop_path, BACKDROP_BASE_URL),
        id: movie.id,
        media_type: "movie".to_owned(),
        key: crate::chars::string_from_chars(key),
        original_title: movie.original_title,
        overview: movie.overview,
        poster_url: map_path(&movie.poster_path, POSTER_BASE_URL),
        title: movie.title,
        date: movie.release_date,
    }
}

fn media_from_tv(tv: Tv) -> (r: Media)
    ensures
        is_media_of_tv(r, tv),
{
    let mut key: Vec<char> = Vec::new();
    push_chars(&mut key, "tv:");
    push_dec_u32(&mut key, tv.id);
    Media {
        backdrop_url: map_path(&tv.backdrop_path, BACKDROP_BASE_URL),
        id: tv.id,
        media_type: "tv".to_owned(),
        key: crate::chars::string_from_chars(key),
        original_title: tv.original_name,
        overview: tv.overview,
        poster_url: map_path(&tv.poster_path, POSTER_BASE_URL),
        title: tv.name,
        date: tv.first_air_date,
    }
}

/// The movie search URL for a query and page.
pub fn movie_search_url(query: &str, page: u32) -> (r: String)
    ensures
        r@
            == "https://api.themoviedb.org/3/search/movie?include_adult=false&language=en-US&query="@
            + form_enc(query@) + "&page="@ + dec_str(page as nat),
{
    let mut url: Vec<char> = Vec::new();
    push_chars(
        &mut url,
        "https://api.themoviedb.org/3/search/movie?include_adult=false&language=en-US&query=",
    );
    push_form_enc(&mut url, query);
    push_chars(&mut url, "&page=");
    push_dec_u32(&mut url, page);
    crate::chars::string_from_chars(url)
}

/// The series search URL for a query and page.
pub fn tv_search_url(query: &str, page: u32) -> (r: String)
    ensures
        r@ == "https://api.themoviedb.org/3/search/tv?include_adult=false&language=en-US&query="@
            + form_enc(query@) + "&page="@ + dec_str(page as nat),
{
    let mut url: Vec<char> = Vec::new();
    push_chars(
        &mut url,
        "https://api.themoviedb.org/3/search/tv?include_adult=false&language=en-US&query=",
    );
    push_form_enc(&mut url, query);
    push_chars(&mut url, "&page=");
    push_dec_u32(&mut url, page);
    crate::chars::string_from_chars(url)
}

/// Shapes a movie-search response for the client: every raw record mapped,
/// page counters passed through; any failure is internal.
pub fn movie_search(outcome: MovieSearchOutcome) -> (r: ApiResult<SearchResult>)
    ensures
        r is Ok <==> outcome is Results,
        outcome matches MovieSearchOutcome::Results(p) ==> (r matches Ok(sr) && {
            &&& sr.page == p.page
            &&& sr.total_pages == p.total_pages
            &&& sr.total_results == p.total_results
            &&& sr.results@.len() == p.results@.len()
            &&& (forall|i: int|
                0 <= i < p.results@.len() ==> is_media_of_movie(
                    #[trigger] sr.results@[i],
                    p.results@[i],
                ))
        }),
        r matches Err(e) ==> e is InternalServerError,
{
    match outcome {
        MovieSearchOutcome::Results(p) => {
            let mut raw = p.results;
            let ghost orig = raw@;
            let mut media: Vec<Media> = Vec::new();
            while raw.len() > 0
                invariant
                    media@.len() + raw@.len() == orig.len(),
                    raw@ =~= orig.skip(media@.len() as int),
                    forall|i: int|
                        0 <= i < media@.len() ==> is_media_of_movie(
                            #[trigger] media@[i],
                            orig[i],
                        ),
                decreases raw@.len(),
            {
                let ghost k = media@.len() as int;
                let movie = raw.remove(0);
                proof {
                    assert(movie == orig[k]);
                    assert(raw@ =~= orig.skip(k + 1));
                }
                media.push(media_from_movie(movie));
            }
            Ok(
                SearchResult {
                    page: p.page,
                    results: media,
                    total_pages: p.total_pages,
                    total_results: p.total_results,
                },
            )
        },
        MovieSearchOutcome::Rejected(err) => Err(
            ApiError::InternalServerError(
                vstd::string::StringExecFns::concat(
                    "Could not movie search TMDB: ".to_owned(),
                    err.as_str(),
                ),
            ),
        ),
        MovieSearchOutcome::TransportFault(err) => Err(ApiError::InternalServerError(err)),
    }
}

/// Shapes a series-search response for the client.
pub fn tv_search(outcome: TvSearchOutcome) -> (r: ApiResult<SearchResult>)
    ensures
        r is Ok <==> outcome is Results,
        outcome matches TvSearchOutcome::Results(p) ==> (r matches Ok(sr) && {
            &&& sr.page == p.page
            &&& sr.total_pages == p.total_pages
            &&& sr.total_results == p.total_results
            &&& sr.results@.len() == p.results@.len()
            &&& (forall|i: int|
                0 <= i < p.results@.len() ==> is_media_of_tv(
                    #[trigger] sr.results@[i],
                    p.results@[i],
                ))
        }),
        r matches Err(e) ==> e is InternalServerError,
{
    match outcome {
        TvSearchOutcome::Results(p) => {
            let mut raw = p.results;
            let ghost orig = raw@;
            let mut media: Vec<Media> = Vec::new();
            while raw.len() > 0
                invariant
                    media@.len() + raw@.len() == orig.len(),
                    raw@ =~= orig.skip(media@.len() as int),
                    forall|i: int|
                        0 <= i < media@.len() ==> is_media_of_tv(#[trigger] media@[i], orig[i]),
                decreases raw@.len(),
            {
                let ghost k = media@.len() as int;
                let tv = raw.remove(0);
                proof {
                    assert(tv == orig[k]);
                    assert(raw@ =~= orig.skip(k + 1));
                }
                media.push(media_from_tv(tv));
            }
            Ok(
                SearchResult {
                    page: p.page,
                    results: media,
                    total_pages: p.total_pages,
                    total_results: p.total_results,
                },
            )
        },
        TvSearchOutcome::Rejected(err) => Err(
            ApiError::InternalServerError(
                vstd::string::StringExecFns::concat(
                    "Could not tv search TMDB: ".to_owned(),
                    err.as_str(),
                ),
            ),
        ),
        TvSearchOutcome::TransportFault(err) => Err(ApiError::InternalServerError(err)),
    }
}

} // verus!
