//! Which file of the frontend answers a request, and with which headers.
use crate::text::{chars_of, contains_char, lemma_rfind, rfind, rsplit_once, same_text, starts_with};
use vstd::prelude::*;

verus! {

pub const INDEX_PATH: &'static str = "index.html";

/// Whether a path belongs to the API.
pub open spec fn api_path(path: Seq<char>) -> bool {
    path == "/api"@ || "/api/"@.is_prefix_of(path)
}

/// Whether a path belongs to the API.
pub fn is_api_path(path: &str) -> (r: bool)
    ensures
        r == api_path(path@),
{
    same_text(path, "/api") || starts_with(path, "/api/")
}

/// `path` without leading slashes.
pub open spec fn without_leading_slashes(path: Seq<char>) -> Seq<char>
    decreases path.len(),
{
    if path.len() > 0 && path[0] == '/' {
        without_leading_slashes(path.skip(1))
    } else {
        path
    }
}

/// The file that a request asks for: the index where it names none.
pub open spec fn asset_path(path: Seq<char>) -> Seq<char> {
    let name = without_leading_slashes(path);
    if name.len() == 0 {
        INDEX_PATH@
    } else {
        name
    }
}

/// The file that a request asks for.
pub fn request_asset_path<'a>(path: &'a str) -> (r: &'a str)
    ensures
        r@ == asset_path(path@),
{
    let chars: Vec<char> = chars_of(path);
    let mut start: usize = 0;
    assert(path@.skip(0) =~= path@);
    while start < chars.len() && chars[start] == '/'
        invariant
            start <= chars@.len(),
            chars@ == path@,
            without_leading_slashes(path@) == without_leading_slashes(path@.skip(start as int)),
        decreases chars@.len() - start,
    {
        assert(path@.skip(start as int).skip(1) =~= path@.skip(start + 1));
        start = start + 1;
    }
    if start == chars.len() {
        assert(path@.skip(start as int) =~= Seq::<char>::empty());
        return INDEX_PATH;
    }
    let name: &'a str = path.substring_char(start, chars.len());
    assert(name@ =~= path@.skip(start as int));
    name
}

/// What follows the last `c` of a text, or all of it.
pub open spec fn after_last(s: Seq<char>, c: char) -> Seq<char> {
    s.skip(rfind(s, c) + 1)
}

fn text_after_last<'a>(text: &'a str, c: char) -> (r: &'a str)
    ensures
        r@ == after_last(text@, c),
{
    proof {
        lemma_rfind(text@, c);
    }
    match rsplit_once(text, c) {
        Some((_, after)) => after,
        None => {
            assert(text@.skip(0) =~= text@);
            text
        },
    }
}

/// Whether a missing file is answered with the index, so that the frontend
/// routes it: not below the assets, and only where its name has no extension.
pub open spec fn falls_back(path: Seq<char>) -> bool {
    !"assets/"@.is_prefix_of(path) && !after_last(path, '/').contains('.')
}

/// Whether a missing file is answered with the index.
pub fn should_fallback_to_index(path: &str) -> (r: bool)
    ensures
        r == falls_back(path@),
{
    if starts_with(path, "assets/") {
        return false;
    }
    !contains_char(text_after_last(path, '/'), '.')
}

/// The content type of a file by its extension.
pub open spec fn type_of(path: Seq<char>) -> Seq<char> {
    let extension = after_last(path, '.');
    if extension == "html"@ {
        "text/html; charset=utf-8"@
    } else if extension == "js"@ || extension == "mjs"@ {
        "text/javascript; charset=utf-8"@
    } else if extension == "css"@ {
        "text/css; charset=utf-8"@
    } else if extension == "json"@ || extension == "map"@ {
        "application/json"@
    } else if extension == "svg"@ {
        "image/svg+xml"@
    } else if extension == "png"@ {
        "image/png"@
    } else if extension == "jpg"@ || extension == "jpeg"@ {
        "image/jpeg"@
    } else if extension == "gif"@ {
        "image/gif"@
    } else if extension == "webp"@ {
        "image/webp"@
    } else if extension == "ico"@ {
        "image/x-icon"@
    } else if extension == "wasm"@ {
        "application/wasm"@
    } else if extension == "txt"@ {
        "text/plain; charset=utf-8"@
    } else if extension == "woff"@ {
        "font/woff"@
    } else if extension == "woff2"@ {
        "font/woff2"@
    } else {
        "application/octet-stream"@
    }
}

/// The content type of a file by its extension.
pub fn content_type(path: &str) -> (r: &'static str)
    ensures
        r@ == type_of(path@),
{
    let extension: &str = text_after_last(path, '.');
    if same_text(extension, "html") {
        "text/html; charset=utf-8"
    } else if same_text(extension, "js") || same_text(extension, "mjs") {
        "text/javascript; charset=utf-8"
    } else if same_text(extension, "css") {
        "text/css; charset=utf-8"
    } else if same_text(extension, "json") || same_text(extension, "map") {
        "application/json"
    } else if same_text(extension, "svg") {
        "image/svg+xml"
    } else if same_text(extension, "png") {
        "image/png"
    } else if same_text(extension, "jpg") || same_text(extension, "jpeg") {
        "image/jpeg"
    } else if same_text(extension, "gif") {
        "image/gif"
    } else if same_text(extension, "webp") {
        "image/webp"
    } else if same_text(extension, "ico") {
        "image/x-icon"
    } else if same_text(extension, "wasm") {
        "application/wasm"
    } else if same_text(extension, "txt") {
        "text/plain; charset=utf-8"
    } else if same_text(extension, "woff") {
        "font/woff"
    } else if same_text(extension, "woff2") {
        "font/woff2"
    } else {
        "application/octet-stream"
    }
}

/// How long a file may be cached: the index not at all, assets for ever,
/// anything else for an hour.
pub open spec fn cache_rule(path: Seq<char>) -> Seq<char> {
    if path == INDEX_PATH@ {
        "no-cache"@
    } else if "assets/"@.is_prefix_of(path) {
        "public, max-age=31536000, immutable"@
    } else {
        "public, max-age=3600"@
    }
}

/// How long a file may be cached.
pub fn cache_control(path: &str) -> (r: &'static str)
    ensures
        r@ == cache_rule(path@),
{
    if same_text(path, INDEX_PATH) {
        "no-cache"
    } else if starts_with(path, "assets/") {
        "public, max-age=31536000, immutable"
    } else {
        "public, max-age=3600"
    }
}

/// A file of the frontend.
#[derive(Debug, PartialEq, Eq)]
pub struct EmbeddedAsset {
    pub path: String,
    pub contents: Vec<u8>,
}

/// Whether the file at `place` is the first with the given path.
pub open spec fn is_asset_at(assets: Seq<EmbeddedAsset>, path: Seq<char>, place: int) -> bool {
    &&& 0 <= place < assets.len()
    &&& assets[place].path@ == path
    &&& forall|k: int| 0 <= k < place ==> (#[trigger] assets[k]).path@ != path
}

/// Whether no file has the given path.
pub open spec fn has_no_asset(assets: Seq<EmbeddedAsset>, path: Seq<char>) -> bool {
    forall|k: int| 0 <= k < assets.len() ==> (#[trigger] assets[k]).path@ != path
}

/// The first file with the given path.
pub fn find_asset(assets: &Vec<EmbeddedAsset>, path: &str) -> (r: Option<usize>)
    ensures
        r matches Some(place) ==> is_asset_at(assets@, path@, place as int),
        r is None ==> has_no_asset(assets@, path@),
{
    let mut i: usize = 0;
    while i < assets.len()
        invariant
            i <= assets@.len(),
            forall|k: int| 0 <= k < i ==> (#[trigger] assets@[k]).path@ != path@,
        decreases assets@.len() - i,
    {
        if same_text(assets[i].path.as_str(), path) {
            return Some(i);
        }
        i = i + 1;
    }
    None
}

/// Whether `r` answers a request for `path`: with the file that it asks for,
/// with the index where the frontend is to route it, or not at all.
pub open spec fn is_answer(r: Option<usize>, assets: Seq<EmbeddedAsset>, path: Seq<char>) -> bool {
    if api_path(path) {
        r is None
    } else if !has_no_asset(assets, asset_path(path)) {
        r matches Some(place) && is_asset_at(assets, asset_path(path), place as int)
    } else if falls_back(asset_path(path)) && !has_no_asset(assets, INDEX_PATH@) {
        r matches Some(place) && is_asset_at(assets, INDEX_PATH@, place as int)
    } else {
        r is None
    }
}

/// The file that answers a request for `path`.
pub fn serve(assets: &Vec<EmbeddedAsset>, path: &str) -> (r: Option<usize>)
    ensures
        is_answer(r, assets@, path@),
{
    if is_api_path(path) {
        return None;
    }
    let wanted: &str = request_asset_path(path);
    match find_asset(assets, wanted) {
        Some(place) => {
            return Some(place);
        },
        None => {},
    }
    if should_fallback_to_index(wanted) {
        return find_asset(assets, INDEX_PATH);
    }
    None
}

/// A request to the API is never answered with a file of the frontend.
pub proof fn law_api_is_not_served(assets: Seq<EmbeddedAsset>, path: Seq<char>, r: Option<usize>)
    requires
        api_path(path),
        is_answer(r, assets, path),
    ensures
        r is None,
{
}

/// A request is answered with the file of its path, whatever slashes the path begins
/// with; the root with the index.
pub proof fn law_files_answer_by_their_path(
    assets: Seq<EmbeddedAsset>,
    name: Seq<char>,
    r: Option<usize>,
    place: int,
)
    requires
        name.len() > 0,
        name[0] != '/',
        !api_path(seq!['/'] + name),
        0 <= place < assets.len(),
        assets[place].path@ == name,
        is_answer(r, assets, seq!['/'] + name),
    ensures
        r is Some,
        r matches Some(found) ==> found < assets.len() && assets[found as int].path@ == name,
{
    let path = seq!['/'] + name;
    assert(path.skip(1) =~= name);
    reveal_with_fuel(without_leading_slashes, 3);
    assert(asset_path(path) == name);
}

/// The root is answered with the index.
pub proof fn law_root_is_the_index(assets: Seq<EmbeddedAsset>, r: Option<usize>, place: int)
    requires
        0 <= place < assets.len(),
        assets[place].path@ == "index.html"@,
        is_answer(r, assets, seq!['/']),
    ensures
        r matches Some(found) && found < assets.len() && assets[found as int].path@ == "index.html"@,
{
    let path = seq!['/'];
    reveal_strlit("/api");
    reveal_strlit("/api/");
    assert(path.skip(1) =~= Seq::<char>::empty());
    reveal_with_fuel(without_leading_slashes, 3);
    assert(path.len() != "/api"@.len());
    assert(!"/api/"@.is_prefix_of(path));
    assert(asset_path(path) == "index.html"@);
}

/// A path without a file is answered with the index, for the frontend to route, where
/// its last part has no dot and it is not below the assets; otherwise not at all.
pub proof fn law_routes_fall_back_to_the_index(
    assets: Seq<EmbeddedAsset>,
    directory: Seq<char>,
    name: Seq<char>,
    r: Option<usize>,
    place: int,
)
    requires
        !name.contains('/'),
        directory.len() > 0,
        directory[0] != '/',
        ({
            let path = directory + seq!['/'] + name;
            &&& !api_path(path)
            &&& forall|k: int| 0 <= k < assets.len() ==> (#[trigger] assets[k]).path@ != path
            &&& is_answer(r, assets, path)
        }),
        0 <= place < assets.len(),
        assets[place].path@ == "index.html"@,
    ensures
        !name.contains('.') && !"assets/"@.is_prefix_of(directory + seq!['/'] + name) ==> (
        r matches Some(found) && found < assets.len() && assets[found as int].path@
            == "index.html"@),
        name.contains('.') || "assets/"@.is_prefix_of(directory + seq!['/'] + name) ==> r is None,
{
    let path = directory + seq!['/'] + name;
    assert(path[0] == directory[0]);
    assert(asset_path(path) == path);
    let n = directory.len() as int;
    lemma_rfind(path, '/');
    assert(path[n] == '/');
    assert forall|k: int| n < k < path.len() implies path[k] != '/' by {
        assert(path[k] == name[k - n - 1]);
        assert(name.contains(name[k - n - 1]));
    }
    assert(rfind(path, '/') == n);
    assert(path.skip(n + 1) =~= name);
}

/// A path belongs to the API exactly where its first part is `api`.
pub proof fn law_api_is_below_its_prefix(rest: Seq<char>)
    ensures
        api_path("/api"@),
        api_path("/api/"@ + rest),
        rest.len() > 0 && rest[0] != '/' ==> !api_path("/api"@ + rest),
        rest.len() > 0 && rest[0] != 'a' ==> !api_path("/"@ + rest),
{
    reveal_strlit("/api");
    reveal_strlit("/api/");
    reveal_strlit("/");
    let below = "/api/"@ + rest;
    assert("/api/"@ =~= below.subrange(0, 5));
    let beside = "/api"@ + rest;
    if "/api/"@.is_prefix_of(beside) {
        assert(beside.subrange(0, 5)[4] == '/');
        assert(beside[4] == rest[0]);
    }
    let other = "/"@ + rest;
    if rest.len() > 0 && api_path(other) {
        assert(other[1] == rest[0]);
        if other == "/api"@ {
            assert("/api"@[1] == 'a');
        } else {
            assert(other.subrange(0, 5)[1] == 'a');
        }
    }
}

/// The index is never cached, what lies below the assets is cached for ever, and other
/// files for an hour.
pub proof fn law_caching_goes_by_path(rest: Seq<char>)
    ensures
        cache_rule("index.html"@) == "no-cache"@,
        cache_rule("assets/"@ + rest) == "public, max-age=31536000, immutable"@,
        rest != "index.html"@ && !"assets/"@.is_prefix_of(rest) ==> cache_rule(rest)
            == "public, max-age=3600"@,
{
    reveal_strlit("index.html");
    reveal_strlit("assets/");
    let path = "assets/"@ + rest;
    assert("assets/"@ =~= path.subrange(0, 7));
    assert(path[0] == 'a');
    assert("index.html"@[0] == 'i');
}

/// The type of a file goes by what follows its last dot, whatever stands before.
pub proof fn law_type_goes_by_the_extension(a: Seq<char>, b: Seq<char>, extension: Seq<char>)
    requires
        !extension.contains('.'),
    ensures
        type_of(a + seq!['.'] + extension) == type_of(b + seq!['.'] + extension),
        extension == "html"@ ==> type_of(a + seq!['.'] + extension) == "text/html; charset=utf-8"@,
        extension == "js"@ || extension == "mjs"@ ==> type_of(a + seq!['.'] + extension)
            == "text/javascript; charset=utf-8"@,
        extension == "css"@ ==> type_of(a + seq!['.'] + extension) == "text/css; charset=utf-8"@,
        extension == "json"@ || extension == "map"@ ==> type_of(a + seq!['.'] + extension)
            == "application/json"@,
        extension == "svg"@ ==> type_of(a + seq!['.'] + extension) == "image/svg+xml"@,
        extension == "png"@ ==> type_of(a + seq!['.'] + extension) == "image/png"@,
        extension == "wasm"@ ==> type_of(a + seq!['.'] + extension) == "application/wasm"@,
        extension == "woff2"@ ==> type_of(a + seq!['.'] + extension) == "font/woff2"@,
{
    lemma_after_last_dot(a, extension);
    lemma_after_last_dot(b, extension);
    reveal_strlit("html");
    reveal_strlit("js");
    reveal_strlit("mjs");
    reveal_strlit("css");
    reveal_strlit("json");
    reveal_strlit("map");
    reveal_strlit("svg");
    reveal_strlit("png");
    reveal_strlit("jpg");
    reveal_strlit("jpeg");
    reveal_strlit("gif");
    reveal_strlit("webp");
    reveal_strlit("ico");
    reveal_strlit("wasm");
    reveal_strlit("txt");
    reveal_strlit("woff");
    reveal_strlit("woff2");
    assert("html"@.len() == 4 && "html"@[0] == 'h');
    assert("js"@.len() == 2 && "mjs"@.len() == 3 && "mjs"@[0] == 'm' && "mjs"@[1] == 'j');
    assert("css"@.len() == 3 && "css"@[0] == 'c');
    assert("json"@.len() == 4 && "json"@[0] == 'j' && "map"@.len() == 3 && "map"@[1] == 'a');
    assert("svg"@.len() == 3 && "svg"@[0] == 's' && "png"@.len() == 3 && "png"@[0] == 'p');
    assert("jpg"@.len() == 3 && "jpg"@[0] == 'j' && "jpeg"@.len() == 4 && "jpeg"@[1] == 'p');
    assert("json"@[1] == 's' && "gif"@.len() == 3 && "webp"@.len() == 4 && "webp"@[0] == 'w');
    assert("webp"@[1] == 'e' && "ico"@.len() == 3 && "wasm"@.len() == 4 && "wasm"@[0] == 'w');
    assert("wasm"@[1] == 'a' && "gif"@[0] == 'g' && "ico"@[0] == 'i' && "txt"@[0] == 't');
    assert("txt"@.len() == 3 && "woff"@.len() == 4 && "woff2"@.len() == 5 && "woff"@[1] == 'o');
}

proof fn lemma_after_last_dot(a: Seq<char>, extension: Seq<char>)
    requires
        !extension.contains('.'),
    ensures
        after_last(a + seq!['.'] + extension, '.') == extension,
{
    let path = a + seq!['.'] + extension;
    let n = a.len() as int;
    lemma_rfind(path, '.');
    assert(path[n] == '.');
    assert forall|k: int| n < k < path.len() implies path[k] != '.' by {
        assert(path[k] == extension[k - n - 1]);
        assert(extension.contains(extension[k - n - 1]));
    }
    assert(rfind(path, '.') == n);
    assert(path.skip(n + 1) =~= extension);
}

} // verus!
