//! `GET /widget/{*path}`: the embedded widget's assets.
//!
//! Responses carry explicit Content-Type overrides (`.wasm` must be
//! `application/wasm` for streaming instantiation) and a split cache policy:
//! hashed chunks under `assets/` are immutable, the entry is revalidated.

use vstd::prelude::*;
use vstd::string::*;
use crate::text::{has_prefix, lemma_split_on_append, split_on, split_str, starts_with, str_eq};

verus! {

/// The extension of a path: the text after its last `.` (the whole path
/// when it has none).
pub open spec fn extension(path: Seq<char>) -> Seq<char> {
    split_on(path, '.').last()
}

/// The Content-Type served for an extension.
pub open spec fn mime_of(ext: Seq<char>) -> Seq<char> {
    if ext == "wasm"@ {
        "application/wasm"@
    } else if ext == "js"@ || ext == "mjs"@ {
        "application/javascript; charset=utf-8"@
    } else if ext == "css"@ {
        "text/css; charset=utf-8"@
    } else if ext == "html"@ || ext == "htm"@ {
        "text/html; charset=utf-8"@
    } else if ext == "json"@ {
        "application/json; charset=utf-8"@
    } else if ext == "svg"@ {
        "image/svg+xml"@
    } else if ext == "map"@ {
        "application/json; charset=utf-8"@
    } else {
        "application/octet-stream"@
    }
}

/// The extension is what follows the last `.`: a path `a.e`, where `e`
/// holds no `.`, has extension `e` (so `app.config.json` is served as JSON).
pub proof fn lemma_extension_after_last_dot(a: Seq<char>, e: Seq<char>)
    requires
        !e.contains('.'),
    ensures
        extension(a + seq!['.'] + e) == e,
{
    let p = a + seq!['.'];
    assert(p.drop_last() =~= a);
    assert(p.last() == '.');
    crate::text::lemma_split_on_nonempty(a, '.');
    lemma_split_on_append(p, e, '.');
    assert(split_on(p, '.').last() =~= Seq::<char>::empty());
    assert(Seq::<char>::empty() + e =~= e);
}

/// The Content-Type table: `wasm` is `application/wasm` (streaming
/// instantiation needs it), `js` and `mjs` JavaScript, `css` CSS, `html`
/// and `htm` HTML, `json` and `map` JSON, `svg` SVG, all in UTF-8 where
/// textual; any other extension is `application/octet-stream`.
pub proof fn lemma_mime_table(ext: Seq<char>)
    ensures
        ext == "wasm"@ ==> mime_of(ext) == "application/wasm"@,
        ext == "js"@ ==> mime_of(ext) == "application/javascript; charset=utf-8"@,
        ext == "mjs"@ ==> mime_of(ext) == "application/javascript; charset=utf-8"@,
        ext == "css"@ ==> mime_of(ext) == "text/css; charset=utf-8"@,
        ext == "html"@ ==> mime_of(ext) == "text/html; charset=utf-8"@,
        ext == "htm"@ ==> mime_of(ext) == "text/html; charset=utf-8"@,
        ext == "json"@ ==> mime_of(ext) == "application/json; charset=utf-8"@,
        ext == "svg"@ ==> mime_of(ext) == "image/svg+xml"@,
        ext == "map"@ ==> mime_of(ext) == "application/json; charset=utf-8"@,
        ext != "wasm"@ && ext != "js"@ && ext != "mjs"@ && ext != "css"@ && ext != "html"@ && ext != "htm"@
            && ext != "json"@ && ext != "svg"@ && ext != "map"@ ==> mime_of(ext) == "application/octet-stream"@,
{
    reveal_strlit("wasm");
    reveal_strlit("js");
    reveal_strlit("mjs");
    reveal_strlit("css");
    reveal_strlit("html");
    reveal_strlit("htm");
    reveal_strlit("json");
    reveal_strlit("svg");
    reveal_strlit("map");
    if ext == "wasm"@ {
        assert(ext.len() == 4 && ext[0] == 'w' && ext[1] == 'a' && ext[2] == 's' && ext[3] == 'm');
    }
    if ext == "js"@ {
        assert(ext.len() == 2 && ext[0] == 'j' && ext[1] == 's');
    }
    if ext == "mjs"@ {
        assert(ext.len() == 3 && ext[0] == 'm' && ext[1] == 'j' && ext[2] == 's');
    }
    if ext == "css"@ {
        assert(ext.len() == 3 && ext[0] == 'c' && ext[1] == 's' && ext[2] == 's');
    }
    if ext == "html"@ {
        assert(ext.len() == 4 && ext[0] == 'h' && ext[1] == 't' && ext[2] == 'm' && ext[3] == 'l');
    }
    if ext == "htm"@ {
        assert(ext.len() == 3 && ext[0] == 'h' && ext[1] == 't' && ext[2] == 'm');
    }
    if ext == "json"@ {
        assert(ext.len() == 4 && ext[0] == 'j' && ext[1] == 's' && ext[2] == 'o' && ext[3] == 'n');
    }
    if ext == "svg"@ {
        assert(ext.len() == 3 && ext[0] == 's' && ext[1] == 'v' && ext[2] == 'g');
    }
    if ext == "map"@ {
        assert(ext.len() == 3 && ext[0] == 'm' && ext[1] == 'a' && ext[2] == 'p');
    }
}

/// Explicit Content-Type map, by the path's extension.
pub fn mime_for(path: &str) -> (m: &'static str)
    ensures
        m@ == mime_of(extension(path@)),
{
    let pieces = split_str(path, '.');
    proof {
        crate::text::lemma_split_on_nonempty(path@, '.');
    }
    let ext = pieces[pieces.len() - 1].as_str();
    if str_eq(ext, "wasm") {
        "application/wasm"
    } else if str_eq(ext, "js") || str_eq(ext, "mjs") {
        "application/javascript; charset=utf-8"
    } else if str_eq(ext, "css") {
        "text/css; charset=utf-8"
    } else if str_eq(ext, "html") || str_eq(ext, "htm") {
        "text/html; charset=utf-8"
    } else if str_eq(ext, "json") {
        "application/json; charset=utf-8"
    } else if str_eq(ext, "svg") {
        "image/svg+xml"
    } else if str_eq(ext, "map") {
        "application/json; charset=utf-8"
    } else {
        "application/octet-stream"
    }
}

/// The Cache-Control served for a path: hashed chunks under `assets/` are
/// far-future immutable; everything else is revalidated on each request.
pub fn cache_control_for(path: &str) -> (cc: &'static str)
    ensures
        has_prefix(path@, "assets/"@) ==> cc@ == "public, max-age=31536000, immutable"@,
        !has_prefix(path@, "assets/"@) ==> cc@ == "no-cache"@,
{
    if starts_with(path, "assets/") {
        "public, max-age=31536000, immutable"
    } else {
        "no-cache"
    }
}

/// The asset key a request path names: the entry document for an empty path.
pub fn asset_key(path: &str) -> (k: String)
    ensures
        path@.len() == 0 ==> k@ == "index.html"@,
        path@.len() != 0 ==> k@ == path@,
{
    if path.is_empty() {
        String::from_str("index.html")
    } else {
        String::from_str(path)
    }
}

/// The key tried when `key` itself is not an asset: its `index.html`.
pub fn index_key(key: &str) -> (k: String)
    ensures
        k@ == key@ + "/index.html"@,
{
    let mut k = String::from_str(key);
    k.append("/index.html");
    k
}

} // verus!
