//! What the indexer asks Spotify, and what it takes from the answers.
use vstd::prelude::*;

verus! {

#[verifier::external_type_specification]
#[verifier::external_body]
pub struct ExJsonValue(serde_json::Value);

/// The answer to a token request.
#[derive(Debug)]
pub struct TokenResponse {
    pub access_token: String,
    pub token_type: String,
    pub expires_in: i32,
}

/// The answer to an artist search.
#[derive(Debug)]
pub struct SpotifyArtistResponse {
    pub artists: Artists,
}

/// One page of artists.
#[derive(Debug)]
pub struct Artists {
    pub href: String,
    pub items: Vec<Item>,
    pub limit: i64,
    pub next: Option<serde_json::Value>,
    pub offset: i64,
    pub previous: Option<serde_json::Value>,
    pub total: i64,
}

/// One artist found.
#[derive(Debug)]
pub struct Item {
    pub external_urls: ExternalUrls,
    pub genres: Vec<Option<serde_json::Value>>,
    pub href: String,
    pub id: String,
    pub images: Vec<Image>,
    pub name: String,
    pub popularity: i64,
    pub item_type: String,
    pub uri: String,
}

/// The artist's page on Spotify.
#[derive(Debug)]
pub struct ExternalUrls {
    pub spotify: String,
}

/// An image of an artist.
#[derive(Debug, Clone)]
pub struct Image {
    pub height: i64,
    pub url: String,
    pub width: i64,
}

/// Where artists are searched: the query goes into the URL as it is.
pub open spec fn artist_search_url(query: Seq<char>) -> Seq<char> {
    "https://api.spotify.com/v1/search?type=artist&q="@ + query
}

/// The search URL carries the whole query, untouched, after the fixed
/// prefix: the query can be read back from the URL, and different queries give
/// different URLs.
pub proof fn law_search_url_carries_query(query: Seq<char>, other: Seq<char>)
    ensures
        ({
            let prefix = "https://api.spotify.com/v1/search?type=artist&q="@;
            let url = artist_search_url(query);
            &&& url.len() == prefix.len() + query.len()
            &&& url.take(prefix.len() as int) == prefix
            &&& url.skip(prefix.len() as int) == query
        }),
        artist_search_url(query) == artist_search_url(other) ==> query == other,
{
    let prefix = "https://api.spotify.com/v1/search?type=artist&q="@;
    assert(artist_search_url(query).take(prefix.len() as int) =~= prefix);
    assert(artist_search_url(query).skip(prefix.len() as int) =~= query);
    assert(artist_search_url(other).skip(prefix.len() as int) =~= other);
}

/// The URL that searches for artists named `query`.
pub fn artist_search(query: &str) -> (r: String)
    ensures
        r@ == artist_search_url(query@),
{
    let mut url = String::from_str("https://api.spotify.com/v1/search?type=artist&q=");
    url.append(query);
    url
}

/// The image URL that an artist gets from a search with at least one result:
/// a fixed placeholder, whatever the results hold.
pub open spec fn placeholder_image() -> Seq<char> {
    "https://http.cat/450.jpg"@
}

/// The image URL that an artist gets from the answer to a search. An answer
/// without any artist has no image to give.
pub fn artist_image(res: &SpotifyArtistResponse) -> (r: String)
    requires
        res.artists.items@.len() > 0,
    ensures
        r@ == placeholder_image(),
{
    String::from_str("https://http.cat/450.jpg")
}

/// Where tokens are requested.
pub open spec fn token_url() -> Seq<char> {
    "https://accounts.spotify.com/api/token"@
}

/// The URL where tokens are requested.
pub fn token_endpoint() -> (r: String)
    ensures
        r@ == token_url(),
{
    String::from_str("https://accounts.spotify.com/api/token")
}

/// What `base64::encode` returns for the UTF-8 bytes of a text: their standard
/// Base64 encoding, with padding.
pub uninterp spec fn base64_of(text: Seq<char>) -> Seq<char>;

/// `base64::encode` of the base64 crate, on the UTF-8 bytes of `text`. The
/// contract names the encoding and says nothing more of it.
#[verifier::external_body]
fn base64_encode(text: &str) -> (r: String)
    ensures
        r@ == base64_of(text@),
{
    base64::encode(text)
}

/// The client credentials: the client id, `:`, the client secret.
pub open spec fn credentials(id: Seq<char>, secret: Seq<char>) -> Seq<char> {
    id + ":"@ + secret
}

/// The credentials read back: the client id, then `:`, then the secret.
pub proof fn law_credentials(id: Seq<char>, secret: Seq<char>)
    ensures
        credentials(id, secret).len() == id.len() + 1 + secret.len(),
        credentials(id, secret).take(id.len() as int) == id,
        credentials(id, secret)[id.len() as int] == ':',
        credentials(id, secret).skip(id.len() as int + 1) == secret,
{
    reveal_strlit(":");
    assert(credentials(id, secret).take(id.len() as int) =~= id);
    assert(credentials(id, secret).skip(id.len() as int + 1) =~= secret);
}

/// The Authorization header of a token request whose credentials encode as
/// `encoded`.
pub fn basic_authorization_of(encoded: &str) -> (r: String)
    ensures
        r@ == "Basic "@ + encoded@,
{
    let mut header = String::from_str("Basic ");
    header.append(encoded);
    header
}

/// The Authorization header of a token request: `Basic ` and the Base64
/// encoding of the client credentials.
pub fn basic_authorization(id: &str, secret: &str) -> (r: String)
    ensures
        r@ == "Basic "@ + base64_of(credentials(id@, secret@)),
{
    let mut plain = String::from_str(id);
    plain.append(":");
    plain.append(secret);
    let encoded = base64_encode(plain.as_str());
    basic_authorization_of(encoded.as_str())
}

} // verus!
