use kyoku::index::spotify::{
    artist_image, artist_search, basic_authorization, basic_authorization_of, token_endpoint,
    Artists, ExternalUrls, Image, Item, SpotifyArtistResponse, TokenResponse,
};

#[test]
fn artist_search_puts_the_query_in_the_url() {
    assert_eq!(artist_search("Queen"), "https://api.spotify.com/v1/search?type=artist&q=Queen");
    assert_eq!(artist_search(""), "https://api.spotify.com/v1/search?type=artist&q=");
}

#[test]
fn basic_authorization_encodes_the_credentials() {
    assert_eq!(basic_authorization("id", "secret"), "Basic aWQ6c2VjcmV0");
    assert_eq!(basic_authorization("", ""), "Basic Og==");
    assert_eq!(basic_authorization_of("abc"), "Basic abc");
    assert_eq!(token_endpoint(), "https://accounts.spotify.com/api/token");
}

#[test]
fn artist_image_is_the_placeholder() {
    let item = Item {
        external_urls: ExternalUrls { spotify: "https://open.spotify.com/artist/x".to_string() },
        genres: vec![None],
        href: String::new(),
        id: "x".to_string(),
        images: vec![Image { height: 10, url: "https://i.scdn.co/image/x".to_string(), width: 10 }],
        name: "Queen".to_string(),
        popularity: 80,
        item_type: "artist".to_string(),
        uri: String::new(),
    };
    let res = SpotifyArtistResponse {
        artists: Artists {
            href: String::new(),
            items: vec![item],
            limit: 1,
            next: Some(serde_json::Value::Null),
            offset: 0,
            previous: None,
            total: 1,
        },
    };
    assert_eq!(artist_image(&res), "https://http.cat/450.jpg");
    let token = TokenResponse { access_token: "t".to_string(), token_type: "Bearer".to_string(), expires_in: 3600 };
    assert_eq!(token.expires_in, 3600);
}
