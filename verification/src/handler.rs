//! The request-handling pipeline: index-document fallback, not-found reply,
//! cache-control assignment by file type, content-type negotiation for the
//! custom `htmd` document format, and the server identification header.
//!
//! The caller resolves the request path against the file system (an external
//! concern) and hands this module plain values: the request's URL path, its
//! `Accept` header, the resolved file response if there was one, and the
//! chosen index document's mime type and bytes. Every decision made on those
//! values is specified and verified here.

use vstd::prelude::*;

use vstd::string::StrSliceExecFns;
use vstd::string::StringSliceAdditionalSpecFns;

use crate::response::{
    resp_header, spec_remove_header, spec_set_header, HttpResponse, ResponseModel,
};
use crate::text::{
    contains_str, ends_with_str, fold_char, fold_seq, spec_contains, spec_ends_with, str_eq,
};

verus! {

/// Seconds a long-lived static asset may be cached for: 365 days.
pub const CACHE_TIME_ASSETS: u64 = 31536000;

/// Seconds ordinary content may be cached for: 12 hours.
pub const CACHE_TIME_CONTENT: u64 = 43200;

/// The path names a long-cacheable static asset: it ends in one of the
/// image, icon and font suffixes.
pub open spec fn spec_is_static_asset(path: Seq<char>) -> bool {
    ||| spec_ends_with(path, ".ico"@)
    ||| spec_ends_with(path, ".jpg"@)
    ||| spec_ends_with(path, ".jpeg"@)
    ||| spec_ends_with(path, ".png"@)
    ||| spec_ends_with(path, ".webp"@)
    ||| spec_ends_with(path, ".gif"@)
    ||| spec_ends_with(path, ".svg"@)
    ||| spec_ends_with(path, ".woff"@)
    ||| spec_ends_with(path, ".woff2"@)
}

/// The cache lifetime assigned to a request path, in seconds.
pub open spec fn spec_cache_seconds(path: Seq<char>) -> u64 {
    if spec_is_static_asset(path) {
        CACHE_TIME_ASSETS
    } else {
        CACHE_TIME_CONTENT
    }
}

/// The `Cache-Control` directive assigned to a request path.
pub open spec fn spec_cache_value(path: Seq<char>) -> Seq<char> {
    if spec_is_static_asset(path) {
        "public, max-age=31536000"@
    } else {
        "public, max-age=43200"@
    }
}

/// Stage: replace the `Cache-Control` header by the path's directive, and
/// drop any `Expires` and `Pragma` headers, which could contradict it.
pub open spec fn spec_set_cache_time(m: ResponseModel, path: Seq<char>) -> ResponseModel {
    spec_remove_header(
        spec_remove_header(
            spec_set_header(m, "Cache-Control"@, spec_cache_value(path)),
            "Expires"@,
        ),
        "Pragma"@,
    )
}

/// The view of an optional `Accept` header.
pub open spec fn accept_view(accept: Option<&str>) -> Option<Seq<char>> {
    match accept {
        Some(a) => Some(a@),
        None => None,
    }
}

/// The client asked for the `htmd` mime type: its `Accept` header, taken as
/// `*/*` when absent, mentions `text/htmd`.
pub open spec fn spec_accepts_htmd(accept: Option<Seq<char>>) -> bool {
    match accept {
        Some(a) => spec_contains(a, "text/htmd"@),
        None => spec_contains("*/*"@, "text/htmd"@),
    }
}

/// The response's current `Content-Type` header mentions `text/htmd`.
pub open spec fn spec_has_htmd_content_type(m: ResponseModel) -> bool {
    match resp_header(m, "Content-Type"@) {
        Some(v) => spec_contains(v, "text/htmd"@),
        None => false,
    }
}

/// The effective document is an `htmd` document: the request path ends in
/// `.htmd`, or the response already carries an `htmd` content type.
pub open spec fn spec_is_htmd(m: ResponseModel, path: Seq<char>) -> bool {
    spec_ends_with(path, ".htmd"@) || spec_has_htmd_content_type(m)
}

/// Stage: for an `htmd` document, replace the `Content-Type` header by
/// `text/htmd` when the client asked for it and by `text/plain` otherwise;
/// leave any other document untouched.
pub open spec fn spec_set_mime(m: ResponseModel, path: Seq<char>, accept: Option<Seq<char>>) -> ResponseModel {
    if spec_is_htmd(m, path) {
        if spec_accepts_htmd(accept) {
            spec_set_header(m, "Content-Type"@, "text/htmd"@)
        } else {
            spec_set_header(m, "Content-Type"@, "text/plain"@)
        }
    } else {
        m
    }
}

/// Stage: replace the `Server` header by this software's identification.
pub open spec fn spec_set_server(m: ResponseModel) -> ResponseModel {
    spec_set_header(m, "Server"@, "waiter (Rust)"@)
}

/// The header-rewriting pipeline applied to every response: cache directive,
/// `htmd` content-type correction, server identification.
pub open spec fn spec_process(m: ResponseModel, path: Seq<char>, accept: Option<Seq<char>>) -> ResponseModel {
    spec_set_server(spec_set_mime(spec_set_cache_time(m, path), path, accept))
}

/// The not-found reply: status 404, a fixed plain-text body.
pub open spec fn spec_not_found() -> ResponseModel {
    ResponseModel {
        status: 404,
        body: ("Resource was not found on this server").spec_bytes(),
        headers: Map::empty().insert(fold_seq("Content-Type"@), "text/plain; charset=utf-8"@),
    }
}

/// A file reply: status 200, the file's bytes, its mime type.
pub open spec fn spec_serve_file(mime_type: Seq<char>, contents: Seq<u8>) -> ResponseModel {
    ResponseModel {
        status: 200,
        body: contents,
        headers: Map::empty().insert(fold_seq("Content-Type"@), mime_type),
    }
}

/// The view of an optional index document: its mime type and its bytes.
pub open spec fn doc_view(doc: Option<(String, Vec<u8>)>) -> Option<(Seq<char>, Seq<u8>)> {
    match doc {
        Some(d) => Some((d.0@, d.1@)),
        None => None,
    }
}

/// The view of an optional resolved file response.
pub open spec fn asset_view(asset: Option<HttpResponse>) -> Option<ResponseModel> {
    match asset {
        Some(a) => Some(a@),
        None => None,
    }
}

/// The index fallback: the chosen index document as a file reply, or the
/// not-found reply when there is none.
pub open spec fn spec_serve_index(doc: Option<(Seq<char>, Seq<u8>)>) -> ResponseModel {
    match doc {
        Some(d) => spec_serve_file(d.0, d.1),
        None => spec_not_found(),
    }
}

/// The index document chosen for the root path, in fixed priority order:
/// `index.htmd`, then `index.txt`, then `index.html`, then `index.xml`.
pub open spec fn spec_find_index(
    htmd_exists: bool,
    txt_exists: bool,
    html_exists: bool,
    xml_exists: bool,
) -> Option<(Seq<char>, Seq<char>)> {
    if htmd_exists {
        Some(("index.htmd"@, "text/htmd"@))
    } else if txt_exists {
        Some(("index.txt"@, "text/plain"@))
    } else if html_exists {
        Some(("index.html"@, "text/html"@))
    } else if xml_exists {
        Some(("index.xml"@, "text/xml"@))
    } else {
        None
    }
}

/// The whole request-to-response transform, given the resolved file response
/// (if the path matched a file) and the index document (read for the root
/// path when no file matched).
pub open spec fn spec_handle(
    path: Seq<char>,
    accept: Option<Seq<char>>,
    asset: Option<ResponseModel>,
    doc: Option<(Seq<char>, Seq<u8>)>,
) -> ResponseModel {
    let base = match asset {
        Some(m) => m,
        None => if path == "/"@ {
            spec_serve_index(doc)
        } else {
            spec_not_found()
        },
    };
    spec_process(base, path, accept)
}

/// An optional filename-and-mime pair agrees with its specification value.
pub open spec fn index_choice_matches(
    r: Option<(String, String)>,
    s: Option<(Seq<char>, Seq<char>)>,
) -> bool {
    match (r, s) {
        (Some(a), Some(b)) => a.0@ == b.0 && a.1@ == b.1,
        (None, None) => true,
        _ => false,
    }
}

/// Whether the request path names a long-cacheable static asset.
pub fn is_static_asset(filename: String) -> (r: bool)
    ensures
        r == spec_is_static_asset(filename@),
{
    let s: &str = filename.as_str();
    ends_with_str(s, ".ico") || ends_with_str(s, ".jpg") || ends_with_str(s, ".jpeg")
        || ends_with_str(s, ".png") || ends_with_str(s, ".webp") || ends_with_str(s, ".gif")
        || ends_with_str(s, ".svg") || ends_with_str(s, ".woff") || ends_with_str(s, ".woff2")
}

/// The cache lifetime for a request path, in seconds.
pub fn get_cache_time_for_filetype(filename: String) -> (r: u64)
    ensures
        r == spec_cache_seconds(filename@),
{
    if is_static_asset(filename) {
        CACHE_TIME_ASSETS
    } else {
        CACHE_TIME_CONTENT
    }
}

/// Replaces the response's `Cache-Control` header by the directive assigned
/// to the request path, dropping any `Expires` and `Pragma` headers.
pub fn set_cache_time(response: HttpResponse, request_url: String) -> (r: HttpResponse)
    requires
        response.wf(),
    ensures
        r.wf(),
        r@ == spec_set_cache_time(response@, request_url@),
{
    let with_directive = if is_static_asset(request_url) {
        response.with_unique_header("Cache-Control", "public, max-age=31536000")
    } else {
        response.with_unique_header("Cache-Control", "public, max-age=43200")
    };
    with_directive.without_header("Expires").without_header("Pragma")
}

/// Whether the client's `Accept` header (taken as `*/*` when absent)
/// mentions the `htmd` mime type.
pub fn accepts_htmd_mime_type(accept: Option<&str>) -> (r: bool)
    ensures
        r == spec_accepts_htmd(accept_view(accept)),
{
    let accept_header: &str = match accept {
        Some(a) => a,
        None => "*/*",
    };
    contains_str(accept_header, "text/htmd")
}

/// Whether the response's current `Content-Type` header mentions `text/htmd`.
/// The header must be present, as it is on every reply this library builds.
pub fn current_response_has_htmd_content_type(response: &HttpResponse) -> (r: bool)
    requires
        response.wf(),
        resp_header(response@, "Content-Type"@) is Some,
    ensures
        r == spec_has_htmd_content_type(response@),
{
    let content_type = response.header("Content-Type");
    match content_type {
        Some(v) => contains_str(v.as_str(), "text/htmd"),
        None => {
            proof {
                assert(false);
            }
            false
        },
    }
}

/// Whether the effective document is an `htmd` document.
pub fn is_htmd_file(response: &HttpResponse, request_url: &str) -> (r: bool)
    requires
        response.wf(),
        spec_ends_with(request_url@, ".htmd"@) || resp_header(response@, "Content-Type"@) is Some,
    ensures
        r == spec_is_htmd(response@, request_url@),
{
    ends_with_str(request_url, ".htmd") || current_response_has_htmd_content_type(response)
}

/// For an `htmd` document, replaces the `Content-Type` header by the
/// negotiated mime type; leaves any other document untouched.
pub fn set_correct_mime_type(
    response: HttpResponse,
    request_url: &str,
    accept: Option<&str>,
) -> (r: HttpResponse)
    requires
        response.wf(),
        spec_ends_with(request_url@, ".htmd"@) || resp_header(response@, "Content-Type"@) is Some,
    ensures
        r.wf(),
        r@ == spec_set_mime(response@, request_url@, accept_view(accept)),
{
    if is_htmd_file(&response, request_url) {
        if accepts_htmd_mime_type(accept) {
            response.with_unique_header("Content-Type", "text/htmd")
        } else {
            response.with_unique_header("Content-Type", "text/plain")
        }
    } else {
        response
    }
}

/// Replaces the `Server` header by this software's identification.
pub fn set_server_header(response: HttpResponse) -> (r: HttpResponse)
    requires
        response.wf(),
    ensures
        r.wf(),
        r@ == spec_set_server(response@),
{
    response.with_unique_header("Server", "waiter (Rust)")
}

/// The not-found reply.
pub fn serve_404() -> (r: HttpResponse)
    ensures
        r.wf(),
        r@ == spec_not_found(),
{
    let body: Vec<u8> = ("Resource was not found on this server").as_bytes_vec();
    let r = HttpResponse::from_parts(404, body).with_unique_header(
        "Content-Type",
        "text/plain; charset=utf-8",
    );
    proof {
        assert(r@ =~= spec_not_found());
    }
    r
}

/// A file reply from its mime type and bytes.
pub fn serve_file(mime_type: String, contents: Vec<u8>) -> (r: HttpResponse)
    ensures
        r.wf(),
        r@ == spec_serve_file(mime_type@, contents@),
{
    let r = HttpResponse::from_parts(200, contents).with_unique_header(
        "Content-Type",
        mime_type.as_str(),
    );
    proof {
        assert(r@ =~= spec_serve_file(mime_type@, contents@));
    }
    r
}

/// Picks the index document for the root path, in fixed priority order,
/// from the files that exist on disk: returns its filename and mime type.
pub fn find_index(
    htmd_exists: bool,
    txt_exists: bool,
    html_exists: bool,
    xml_exists: bool,
) -> (r: Option<(String, String)>)
    ensures
        index_choice_matches(r, spec_find_index(htmd_exists, txt_exists, html_exists, xml_exists)),
{
    if htmd_exists {
        Some(("index.htmd".to_owned(), "text/htmd".to_owned()))
    } else if txt_exists {
        Some(("index.txt".to_owned(), "text/plain".to_owned()))
    } else if html_exists {
        Some(("index.html".to_owned(), "text/html".to_owned()))
    } else if xml_exists {
        Some(("index.xml".to_owned(), "text/xml".to_owned()))
    } else {
        None
    }
}

/// The index fallback for the root path: serves the index document that was
/// read, or the not-found reply when none was found or it could not be read.
pub fn serve_index(index_doc: Option<(String, Vec<u8>)>) -> (r: HttpResponse)
    ensures
        r.wf(),
        r@ == spec_serve_index(doc_view(index_doc)),
{
    match index_doc {
        Some((mime_type, contents)) => serve_file(mime_type, contents),
        None => serve_404(),
    }
}

/// Handles one request: takes the resolved file response when the path
/// matched a file, otherwise falls back to the index document (for the root
/// path) or the not-found reply, then assigns the cache directive, corrects
/// the content type of `htmd` documents, and stamps the server header.
pub fn handle(
    request_url: &str,
    accept: Option<&str>,
    asset: Option<HttpResponse>,
    index_doc: Option<(String, Vec<u8>)>,
) -> (r: HttpResponse)
    requires
        match asset {
            Some(a) => a.wf() && (spec_ends_with(request_url@, ".htmd"@) || resp_header(
                a@,
                "Content-Type"@,
            ) is Some),
            None => true,
        },
    ensures
        r.wf(),
        r@ == spec_handle(
            request_url@,
            accept_view(accept),
            asset_view(asset),
            doc_view(index_doc),
        ),
{
    let mut response: HttpResponse = match asset {
        Some(a) => a,
        None => {
            if str_eq(request_url, "/") {
                serve_index(index_doc)
            } else {
                serve_404()
            }
        },
    };
    response = set_cache_time(response, request_url.to_owned());
    proof {
        // The cache stage drops only `Expires` and `Pragma`, so the
        // `Content-Type` header the next stage reads is still there.
        lemma_header_names_distinct();
    }
    response = set_correct_mime_type(response, request_url, accept);
    response = set_server_header(response);
    response
}

/// The header names the pipeline touches have pairwise different
/// case-folded forms.
proof fn lemma_header_names_distinct()
    ensures
        fold_seq("Cache-Control"@) != fold_seq("Content-Type"@),
        fold_seq("Cache-Control"@) != fold_seq("Server"@),
        fold_seq("Content-Type"@) != fold_seq("Server"@),
        fold_seq("Expires"@) != fold_seq("Cache-Control"@),
        fold_seq("Expires"@) != fold_seq("Content-Type"@),
        fold_seq("Expires"@) != fold_seq("Server"@),
        fold_seq("Expires"@) != fold_seq("Pragma"@),
        fold_seq("Pragma"@) != fold_seq("Cache-Control"@),
        fold_seq("Pragma"@) != fold_seq("Content-Type"@),
        fold_seq("Pragma"@) != fold_seq("Server"@),
{
    reveal_strlit("Cache-Control");
    reveal_strlit("Content-Type");
    reveal_strlit("Server");
    reveal_strlit("Expires");
    reveal_strlit("Pragma");
    assert(fold_seq("Cache-Control"@).len() == 13);
    assert(fold_seq("Content-Type"@).len() == 12);
    assert(fold_seq("Server"@).len() == 6);
    assert(fold_seq("Expires"@).len() == 7);
    assert(fold_seq("Pragma"@).len() == 6);
    assert(fold_seq("Pragma"@)[0] == fold_char('P'));
    assert(fold_seq("Server"@)[0] == fold_char('S'));
}

/// Every sequence occurs in itself.
proof fn lemma_contains_self(s: Seq<char>)
    ensures
        spec_contains(s, s),
{
    let i: int = 0;
    assert(s.subrange(i, i + s.len()) =~= s);
    assert(0 <= i <= s.len() - s.len() && s.subrange(i, i + s.len()) == s);
}

/// The downgraded content type does not mention the `htmd` mime type.
proof fn lemma_plain_not_htmd()
    ensures
        !spec_contains("text/plain"@, "text/htmd"@),
{
    reveal_strlit("text/plain");
    reveal_strlit("text/htmd");
    let s = "text/plain"@;
    let sub = "text/htmd"@;
    if spec_contains(s, sub) {
        let i = choose|i: int|
            0 <= i <= s.len() - sub.len() && #[trigger] s.subrange(i, i + sub.len()) == sub;
        if i == 0 {
            assert(s.subrange(0, 0 + sub.len() as int)[5] == 'p');
            assert(sub[5] == 'h');
        } else {
            assert(i == 1);
            assert(s.subrange(1, 1 + sub.len() as int)[0] == 'e');
            assert(sub[0] == 't');
        }
        assert(false);
    }
}

/// Law: a reply built from a resolved file keeps the resolver's status and
/// body, carries the cache directive assigned by the path's suffix -- the
/// long-lived one exactly for static-asset suffixes -- and carries the
/// server identification header.
pub proof fn lemma_resolved_file_reply(
    am: ResponseModel,
    path: Seq<char>,
    accept: Option<Seq<char>>,
    doc: Option<(Seq<char>, Seq<u8>)>,
)
    ensures
        spec_handle(path, accept, Some(am), doc).status == am.status,
        spec_handle(path, accept, Some(am), doc).body == am.body,
        resp_header(spec_handle(path, accept, Some(am), doc), "Cache-Control"@) == Some(
            spec_cache_value(path),
        ),
        spec_is_static_asset(path) ==> spec_cache_value(path) == "public, max-age=31536000"@,
        !spec_is_static_asset(path) ==> spec_cache_value(path) == "public, max-age=43200"@,
        resp_header(spec_handle(path, accept, Some(am), doc), "Server"@) == Some(
            "waiter (Rust)"@,
        ),
{
    lemma_header_names_distinct();
}

/// Law: a request for a path that matched no file and is not the root gets
/// the not-found reply: status 404 and the fixed body, still carrying the
/// content cache directive and the server header. Paths with a static-asset
/// suffix are assigned the long-lived directive instead, so they are left
/// out of the cache clause here.
pub proof fn lemma_not_found_reply(
    path: Seq<char>,
    accept: Option<Seq<char>>,
    doc: Option<(Seq<char>, Seq<u8>)>,
)
    requires
        path != "/"@,
        !spec_is_static_asset(path),
    ensures
        spec_handle(path, accept, None, doc).status == 404,
        spec_handle(path, accept, None, doc).body == (
        "Resource was not found on this server").spec_bytes(),
        resp_header(spec_handle(path, accept, None, doc), "Cache-Control"@) == Some(
            "public, max-age=43200"@,
        ),
        resp_header(spec_handle(path, accept, None, doc), "Server"@) == Some("waiter (Rust)"@),
{
    lemma_header_names_distinct();
}

/// Law: the root-path index reply serves the chosen document unchanged --
/// status 200 and the document's own bytes -- and its content type is the
/// document's own mime type, except that a document of the `htmd` mime type
/// is delivered as `text/htmd` exactly when the client asked for it and as
/// `text/plain` otherwise.
pub proof fn lemma_index_reply(mime: Seq<char>, bytes: Seq<u8>, accept: Option<Seq<char>>)
    ensures
        spec_handle("/"@, accept, None, Some((mime, bytes))).status == 200,
        spec_handle("/"@, accept, None, Some((mime, bytes))).body == bytes,
        spec_contains(mime, "text/htmd"@) ==> resp_header(
            spec_handle("/"@, accept, None, Some((mime, bytes))),
            "Content-Type"@,
        ) == Some(if spec_accepts_htmd(accept) { "text/htmd"@ } else { "text/plain"@ }),
        !spec_contains(mime, "text/htmd"@) ==> resp_header(
            spec_handle("/"@, accept, None, Some((mime, bytes))),
            "Content-Type"@,
        ) == Some(mime),
{
    lemma_header_names_distinct();
    reveal_strlit("/");
    reveal_strlit(".htmd");
    assert(!spec_ends_with("/"@, ".htmd"@));
}

/// Law: the header-rewriting pipeline is idempotent: applying the cache,
/// content-type and server stages to an already-processed response gives
/// back that response unchanged.
pub proof fn lemma_process_idempotent(m: ResponseModel, path: Seq<char>, accept: Option<Seq<char>>)
    ensures
        spec_process(spec_process(m, path, accept), path, accept) == spec_process(m, path, accept),
{
    lemma_header_names_distinct();
    let m1 = spec_set_cache_time(m, path);
    let m2 = spec_set_mime(m1, path, accept);
    let m3 = spec_set_server(m2);
    let n1 = spec_set_cache_time(m3, path);
    assert(n1.headers =~= m3.headers);
    assert(n1 =~= m3);
    let n2 = spec_set_mime(n1, path, accept);
    if spec_ends_with(path, ".htmd"@) {
        assert(n2.headers =~= m3.headers);
        assert(n2 =~= m3);
    } else if spec_has_htmd_content_type(m1) {
        if spec_accepts_htmd(accept) {
            assert(resp_header(m3, "Content-Type"@) == Some("text/htmd"@));
            lemma_contains_self("text/htmd"@);
            assert(spec_is_htmd(n1, path));
            assert(n2.headers =~= m3.headers);
            assert(n2 =~= m3);
        } else {
            assert(resp_header(m3, "Content-Type"@) == Some("text/plain"@));
            lemma_plain_not_htmd();
            assert(!spec_is_htmd(n1, path));
            assert(n2 == m3);
        }
    } else {
        assert(resp_header(m3, "Content-Type"@) == resp_header(m1, "Content-Type"@));
        assert(!spec_is_htmd(n1, path));
        assert(n2 == m3);
    }
    let n3 = spec_set_server(n2);
    assert(n3.headers =~= m3.headers);
    assert(n3 =~= m3);
}

} // verus!
