use stream_stash::google::{
    bearer_header, exchange_request_body, generate_auth_url_and_code_verifier,
    refresh_request_body, revoke_url, ApplicationDetails, AUTH_SCOPE, REDIRECT_URL,
};
use stream_stash::tmdb::{
    map_path, movie_search, movie_search_url, tv_search, tv_search_url, Movie, MoviePage,
    MovieSearchOutcome, Tv, TvPage, TvSearchOutcome,
};
use stream_stash::ApiError;

fn details() -> ApplicationDetails {
    ApplicationDetails {
        client_id: "my-client.apps.example".to_string(),
        client_secret: "shhh-not-telling".to_string(),
    }
}

#[test]
fn auth_url_carries_the_required_parameters() {
    let (url, verifier) = generate_auth_url_and_code_verifier(&details());
    assert!(url.starts_with(
        "https://accounts.google.com/o/oauth2/v2/auth?client_id=my-client.apps.example&redirect_uri=https%3A%2F%2Fwww.stream-stash.com%2FloginRedirect&response_type=code&prompt=consent&access_type=offline&scope="
    ));
    assert!(url.ends_with("&code_challenge_method=S256"));
    assert!(url.contains("&code_challenge="));
    // the scope is carried form-encoded: spaces as '+', colons and slashes escaped
    assert!(url.contains("&scope=https%3A%2F%2Fwww.googleapis.com%2Fauth%2Fdrive.appdata+"));
    // the verifier has the generator's fixed length and alphabet
    assert_eq!(verifier.len(), 128);
    assert!(verifier
        .bytes()
        .all(|b| b.is_ascii_alphanumeric() || b == b'-' || b == b'.' || b == b'~' || b == b'_'));
}

#[test]
fn auth_urls_differ_between_attempts() {
    // fresh randomness each time: the challenge (and verifier) differ
    let (url1, v1) = generate_auth_url_and_code_verifier(&details());
    let (url2, v2) = generate_auth_url_and_code_verifier(&details());
    assert_ne!(v1, v2);
    assert_ne!(url1, url2);
}

#[test]
fn challenge_is_derived_not_copied() {
    // the verifier itself never appears in the URL; its derived challenge does
    let (url, verifier) = generate_auth_url_and_code_verifier(&details());
    assert!(!url.contains(&verifier));
    let challenge = url
        .split("&code_challenge=")
        .nth(1)
        .unwrap()
        .split('&')
        .next()
        .unwrap();
    assert_eq!(challenge.len(), 43);
}

#[test]
fn movie_search_url_is_exact() {
    assert_eq!(
        movie_search_url("star wars", 2),
        "https://api.themoviedb.org/3/search/movie?include_adult=false&language=en-US&query=star+wars&page=2"
    );
}

#[test]
fn tv_search_url_escapes_unicode_queries() {
    assert_eq!(
        tv_search_url("café & crime", 10),
        "https://api.themoviedb.org/3/search/tv?include_adult=false&language=en-US&query=caf%C3%A9+%26+crime&page=10"
    );
}

#[test]
fn revoke_url_escapes_the_token() {
    assert_eq!(
        revoke_url("to/k+en"),
        "https://oauth2.googleapis.com/revoke?token=to%2Fk%2Ben"
    );
}

#[test]
fn bearer_header_is_exact() {
    assert_eq!(bearer_header("abc123"), "Bearer abc123");
}

#[test]
fn exchange_request_body_is_exact_json() {
    let body = exchange_request_body(&details(), "co\"de", "verif\\ier");
    assert_eq!(
        body,
        format!(
            "{{\"client_id\":\"my-client.apps.example\",\"client_secret\":\"shhh-not-telling\",\"code\":\"co\\\"de\",\"code_verifier\":\"verif\\\\ier\",\"grant_type\":\"authorization_code\",\"redirect_uri\":\"{REDIRECT_URL}\"}}"
        )
    );
}

#[test]
fn refresh_request_body_is_exact_json() {
    let body = refresh_request_body(&details(), "r1");
    assert_eq!(
        body,
        "{\"client_id\":\"my-client.apps.example\",\"client_secret\":\"shhh-not-telling\",\"grant_type\":\"refresh_token\",\"refresh_token\":\"r1\"}"
    );
}

#[test]
fn request_bodies_escape_control_characters() {
    let mut d = details();
    d.client_secret = "a\nb".to_string();
    let body = refresh_request_body(&d, "r");
    assert!(body.contains("\"a\\u000ab\""));
}

#[test]
fn map_path_qualifies_present_paths_only() {
    assert_eq!(
        map_path(&Some("/x.png".to_string()), "https://img.example"),
        Some("https://img.example/x.png".to_string())
    );
    assert_eq!(map_path(&None, "https://img.example"), None);
}

#[test]
fn movie_search_maps_records_for_the_client() {
    let page = MoviePage {
        page: 1,
        results: vec![Movie {
            backdrop_path: Some("/b.jpg".to_string()),
            id: 42,
            original_title: "La Grande Illusion".to_string(),
            overview: "o".to_string(),
            poster_path: None,
            title: "Grand Illusion".to_string(),
            release_date: "1937-06-09".to_string(),
        }],
        total_pages: 3,
        total_results: 55,
    };
    let sr = movie_search(MovieSearchOutcome::Results(page)).unwrap();
    assert_eq!(sr.page, 1);
    assert_eq!(sr.total_pages, 3);
    assert_eq!(sr.total_results, 55);
    assert_eq!(sr.results.len(), 1);
    let m = &sr.results[0];
    assert_eq!(
        m.backdrop_url,
        Some("https://image.tmdb.org/t/p/w1920_and_h1080_bestv2/b.jpg".to_string())
    );
    assert_eq!(m.id, 42);
    assert_eq!(m.media_type, "movie");
    assert_eq!(m.key, "movie:42");
    assert_eq!(m.original_title, "La Grande Illusion");
    assert_eq!(m.overview, "o");
    assert_eq!(m.poster_url, None);
    assert_eq!(m.title, "Grand Illusion");
    assert_eq!(m.date, "1937-06-09");
}

#[test]
fn tv_search_maps_records_for_the_client() {
    let page = TvPage {
        page: 2,
        results: vec![Tv {
            backdrop_path: None,
            id: 7,
            original_name: "Das Boot".to_string(),
            overview: "ov".to_string(),
            poster_path: Some("/p.jpg".to_string()),
            name: "The Boat".to_string(),
            first_air_date: "1985-02-24".to_string(),
        }],
        total_pages: 1,
        total_results: 1,
    };
    let sr = tv_search(TvSearchOutcome::Results(page)).unwrap();
    let m = &sr.results[0];
    assert_eq!(m.media_type, "tv");
    assert_eq!(m.key, "tv:7");
    assert_eq!(m.original_title, "Das Boot");
    assert_eq!(m.title, "The Boat");
    assert_eq!(
        m.poster_url,
        Some("https://image.tmdb.org/t/p/w600_and_h900_bestv2/p.jpg".to_string())
    );
    assert_eq!(m.backdrop_url, None);
    assert_eq!(m.date, "1985-02-24");
}

#[test]
fn search_failures_are_internal() {
    assert!(matches!(
        movie_search(MovieSearchOutcome::Rejected("{}".to_string())),
        Err(ApiError::InternalServerError(_))
    ));
    assert!(matches!(
        movie_search(MovieSearchOutcome::TransportFault("x".to_string())),
        Err(ApiError::InternalServerError(_))
    ));
    assert!(matches!(
        tv_search(TvSearchOutcome::Rejected("{}".to_string())),
        Err(ApiError::InternalServerError(_))
    ));
    assert!(matches!(
        tv_search(TvSearchOutcome::TransportFault("x".to_string())),
        Err(ApiError::InternalServerError(_))
    ));
}

#[test]
fn auth_scope_is_the_fixed_three_scopes() {
    assert_eq!(
        AUTH_SCOPE,
        "https://www.googleapis.com/auth/drive.appdata https://www.googleapis.com/auth/userinfo.email openid"
    );
}
