use hyper_static::cache::{cache_headers, EntityTag, FileStats, ModTime};
use hyper_static::encoding::{q, AcceptEncoding, Encoding, QualityItem};
use hyper_static::http::{
    CacheDirective, Headers, IfNoneMatch, Method, Request, Response, StatusCode,
};
use hyper_static::mime::ContentType;
use hyper_static::path::PathKind;
use hyper_static::service::{Lookup, Snapshot, StaticServe, Step, Target};

/// One entry of a file system that lives in the test.
enum Node {
    File(FileStats, Vec<u8>),
    Unreadable(String),
    Directory,
}

struct Disk(Vec<(String, Node)>);

impl Disk {
    fn node(&self, path: &str) -> Option<&Node> {
        self.0.iter().find(|entry| entry.0 == path).map(|entry| &entry.1)
    }

    fn kind(&self, path: &str) -> PathKind {
        match self.node(path) {
            Some(Node::Directory) => PathKind::Directory,
            Some(_) => PathKind::File,
            None => PathKind::Missing,
        }
    }

    fn open(&self, path: &str) -> Result<FileStats, String> {
        match self.node(path) {
            Some(Node::File(stats, _)) => Ok(*stats),
            Some(Node::Unreadable(error)) => Err(error.clone()),
            _ => panic!("opened what is no file: {}", path),
        }
    }

    fn read(&self, path: &str) -> Vec<u8> {
        match self.node(path) {
            Some(Node::File(_, content)) => content.clone(),
            _ => panic!("read what is no file: {}", path),
        }
    }
}

/// Does what a transport does: the work on the file system between the
/// handler's decisions.
fn serve(server: &StaticServe, req: &Request, disk: &Disk) -> Response {
    let mut step = server.call(req);
    let mut rounds = 0;
    loop {
        step = match step {
            Step::Respond(response) => return response,
            Step::Stat(lookup) => {
                let kind = disk.kind(&lookup.path);
                server.resolve(lookup, kind)
            }
            Step::Open(target) => {
                let opened = disk.open(&target.path);
                server.validate(req, target, opened)
            }
            Step::Read(snapshot) => {
                let content = disk.read(&snapshot.path);
                Step::Respond(server.send_file(req, snapshot, &content))
            }
        };
        rounds += 1;
        assert!(rounds <= 4);
    }
}

fn hello_stats() -> FileStats {
    FileStats { len: 5, modified: Some(ModTime { secs: 1500000000, nanos: 42 }) }
}

fn srv() -> Disk {
    Disk(vec![
        ("/srv/a.txt".to_string(), Node::File(hello_stats(), b"hello".to_vec())),
        ("/srv/docs".to_string(), Node::Directory),
        ("/srv/docs/".to_string(), Node::Directory),
        (
            "/srv/docs/index.html".to_string(),
            Node::File(FileStats { len: 13, modified: None }, b"<p>docs</p>\r\n".to_vec()),
        ),
        ("/srv/empty".to_string(), Node::Directory),
        ("/srv/odd".to_string(), Node::Directory),
        ("/srv/odd/index.html".to_string(), Node::Directory),
        ("/srv/locked.bin".to_string(), Node::Unreadable("Permission denied (os error 13)".to_string())),
        ("/srv/".to_string(), Node::Directory),
        ("/srv/index.html".to_string(), Node::File(FileStats { len: 4, modified: None }, b"root".to_vec())),
        ("/etc/passwd".to_string(), Node::File(FileStats { len: 1, modified: None }, b"x".to_vec())),
    ])
}

fn get(path: &str) -> Request {
    Request { method: Method::Get, path: path.to_string(), accept_encoding: None, if_none_match: None }
}

fn accepting(path: &str, codings: Vec<Encoding>) -> Request {
    let items = codings.into_iter().map(|item| QualityItem { item, quality: q(1000) }).collect();
    Request { accept_encoding: Some(AcceptEncoding(items)), ..get(path) }
}

fn server() -> StaticServe {
    StaticServe::new("/srv".to_string())
}

#[test]
fn new_keeps_the_root() {
    assert_eq!(StaticServe::new("/srv".to_string()).root, "/srv");
    assert_eq!(StaticServe::new(String::new()).root, "");
}

#[test]
fn file_without_accept_encoding() {
    let response = serve(&server(), &get("/a.txt"), &srv());
    assert_eq!(response.status, StatusCode::Success);
    assert_eq!(response.status.code(), 200);
    assert_eq!(response.headers.content_length, Some(5));
    assert_eq!(response.body, b"hello".to_vec());
    assert_eq!(response.headers.content_type, Some(ContentType("text/plain".to_string())));
    let etag = response.headers.etag.expect("a file is sent with its entity tag");
    assert!(!etag.tag().is_empty());
    assert_eq!(etag.tag(), "1500000000.42-5");
    assert!(!etag.weak);
    assert_eq!(response.headers.content_encoding, None);
}

#[test]
fn file_with_accept_encoding_deflate() {
    let raw = serve(&server(), &get("/a.txt"), &srv());
    let response = serve(&server(), &accepting("/a.txt", vec![Encoding::Deflate]), &srv());
    assert_eq!(response.status, StatusCode::Success);
    assert_eq!(response.headers.content_encoding, Some(Encoding::Deflate));
    assert_eq!(response.body, deflate::deflate_bytes(b"hello"));
    assert_ne!(response.body, raw.body);
    assert_ne!(response.body.len(), raw.body.len());
    assert_eq!(response.headers.content_length, Some(response.body.len() as u64));
    assert_eq!(response.headers.etag, raw.headers.etag);
    assert_eq!(response.headers.content_type, raw.headers.content_type);
}

#[test]
fn file_response_carries_every_header() {
    let response = serve(&server(), &get("/a.txt"), &srv());
    assert_eq!(response.headers.server, Some("Toa".to_string()));
    assert_eq!(response.headers.vary, vec!["Accept-Encoding".to_string()]);
    assert_eq!(response.headers.cache_control, Some(CacheDirective::Public));
    assert_eq!(
        response.headers.last_modified.map(|at| (at.0.secs, at.0.nanos)),
        Some((1500000000, 42))
    );
}

#[test]
fn other_codings_leave_the_body_alone() {
    let response = serve(&server(), &accepting("/a.txt", vec![Encoding::Gzip, Encoding::Brotli]), &srv());
    assert_eq!(response.status, StatusCode::Success);
    assert_eq!(response.headers.content_encoding, None);
    assert_eq!(response.body, b"hello".to_vec());
    let response = serve(&server(), &accepting("/a.txt", vec![]), &srv());
    assert_eq!(response.body, b"hello".to_vec());
}

#[test]
fn file_without_modification_time_has_no_last_modified() {
    let response = serve(&server(), &get("/docs/index.html"), &srv());
    assert_eq!(response.status, StatusCode::Success);
    assert_eq!(response.headers.last_modified, None);
    assert_eq!(response.headers.etag, Some(EntityTag::strong("13".to_string())));
}

#[test]
fn directory_answers_as_its_index() {
    let by_dir = serve(&server(), &get("/docs"), &srv());
    let by_slash = serve(&server(), &get("/docs/"), &srv());
    let by_name = serve(&server(), &get("/docs/index.html"), &srv());
    assert_eq!(by_dir.status, StatusCode::Success);
    assert_eq!(by_dir.body, b"<p>docs</p>\r\n".to_vec());
    assert_eq!(by_dir.headers.content_type, Some(ContentType("text/html".to_string())));
    assert_eq!(by_dir, by_name);
    assert_eq!(by_slash, by_name);
}

#[test]
fn root_answers_as_its_index() {
    let by_root = serve(&server(), &get("/"), &srv());
    let by_name = serve(&server(), &get("/index.html"), &srv());
    assert_eq!(by_root.status, StatusCode::Success);
    assert_eq!(by_root.body, b"root".to_vec());
    assert_eq!(by_root, by_name);
}

#[test]
fn directory_without_index_is_not_found() {
    let response = serve(&server(), &get("/empty"), &srv());
    assert_eq!(response.status, StatusCode::NotFound);
    assert_eq!(response.status.code(), 404);
    assert_eq!(response.body, b"<h1>Page not found</h1>".to_vec());
    assert_eq!(response.headers, Headers::new());
}

#[test]
fn index_that_is_a_directory_is_not_found() {
    let response = serve(&server(), &get("/odd"), &srv());
    assert_eq!(response.status, StatusCode::NotFound);
}

#[test]
fn missing_path_is_not_found() {
    let response = serve(&server(), &get("/nothing.txt"), &srv());
    assert_eq!(response.status, StatusCode::NotFound);
    assert_eq!(response.body, b"<h1>Page not found</h1>".to_vec());
    assert_eq!(response.headers.etag, None);
    assert_eq!(response.headers.cache_control, None);
}

#[test]
fn path_that_leaves_the_root_is_not_found() {
    for path in ["/../etc/passwd", "//etc/passwd", "/docs/../../etc/passwd", "/.."] {
        let response = serve(&server(), &get(path), &srv());
        assert_eq!(response.status, StatusCode::NotFound);
        assert_eq!(response.body, b"<h1>Page not found</h1>".to_vec());
    }
}

#[test]
fn second_request_with_the_entity_tag_is_not_modified() {
    let first = serve(&server(), &get("/a.txt"), &srv());
    let etag = first.headers.etag.expect("a file is sent with its entity tag");
    let second = Request { if_none_match: Some(IfNoneMatch::Items(vec![etag])), ..get("/a.txt") };
    let response = serve(&server(), &second, &srv());
    assert_eq!(response.status, StatusCode::NotModified);
    assert_eq!(response.status.code(), 304);
    assert!(response.body.is_empty());
    assert_eq!(response.headers, Headers::new());
}

#[test]
fn entity_tag_among_others_is_found() {
    let tags = vec![
        EntityTag::strong("1".to_string()),
        EntityTag::weak("1500000000.42-5".to_string()),
        EntityTag::strong("1500000000.42-5".to_string()),
    ];
    let req = Request { if_none_match: Some(IfNoneMatch::Items(tags)), ..get("/a.txt") };
    assert_eq!(serve(&server(), &req, &srv()).status, StatusCode::NotModified);
}

#[test]
fn stale_weak_or_absent_tags_get_the_file() {
    let stale = Request {
        if_none_match: Some(IfNoneMatch::Items(vec![EntityTag::strong("1500000000.41-5".to_string())])),
        ..get("/a.txt")
    };
    let weak = Request {
        if_none_match: Some(IfNoneMatch::Items(vec![EntityTag::weak("1500000000.42-5".to_string())])),
        ..get("/a.txt")
    };
    let none = Request { if_none_match: Some(IfNoneMatch::Items(vec![])), ..get("/a.txt") };
    let any = Request { if_none_match: Some(IfNoneMatch::Any), ..get("/a.txt") };
    for req in [stale, weak, none, any] {
        let response = serve(&server(), &req, &srv());
        assert_eq!(response.status, StatusCode::Success);
        assert_eq!(response.body, b"hello".to_vec());
    }
}

#[test]
fn modified_file_is_sent_again() {
    let first = serve(&server(), &get("/a.txt"), &srv());
    let etag = first.headers.etag.expect("a file is sent with its entity tag");
    let changed = Disk(vec![(
        "/srv/a.txt".to_string(),
        Node::File(
            FileStats { len: 6, modified: Some(ModTime { secs: 1500000001, nanos: 0 }) },
            b"hello!".to_vec(),
        ),
    )]);
    let second = Request { if_none_match: Some(IfNoneMatch::Items(vec![etag])), ..get("/a.txt") };
    let response = serve(&server(), &second, &changed);
    assert_eq!(response.status, StatusCode::Success);
    assert_eq!(response.body, b"hello!".to_vec());
}

#[test]
fn other_methods_are_not_allowed() {
    for method in [
        Method::Post,
        Method::Put,
        Method::Delete,
        Method::Head,
        Method::Options,
        Method::Trace,
        Method::Connect,
        Method::Patch,
        Method::Extension,
    ] {
        for path in ["/a.txt", "/nothing.txt", "/../etc/passwd", ""] {
            let req = Request { method, ..get(path) };
            let response = serve(&server(), &req, &srv());
            assert_eq!(response.status, StatusCode::MethodNotAllowed);
            assert_eq!(response.status.code(), 405);
            assert_eq!(response.body, b"<h1>Method is not allowed</h1>".to_vec());
            assert_eq!(response.headers, Headers::new());
        }
    }
}

#[test]
fn other_method_is_answered_at_once() {
    let req = Request { method: Method::Post, ..get("/a.txt") };
    assert!(matches!(server().call(&req), Step::Respond(_)));
}

#[test]
fn file_that_cannot_be_opened_is_an_internal_error() {
    let response = serve(&server(), &get("/locked.bin"), &srv());
    assert_eq!(response.status, StatusCode::InternalServerError);
    assert_eq!(response.status.code(), 500);
    assert_eq!(response.body, b"Permission denied (os error 13)".to_vec());
    assert_eq!(response.headers, Headers::new());
}

#[test]
fn call_asks_for_the_joined_path() {
    assert_eq!(
        server().call(&get("/css/site.css")),
        Step::Stat(Lookup { path: "/srv/css/site.css".to_string(), index: false })
    );
}

#[test]
fn resolve_opens_a_file_with_its_content_type() {
    let lookup = Lookup { path: "/srv/site.css".to_string(), index: false };
    assert_eq!(
        server().resolve(lookup, PathKind::File),
        Step::Open(Target {
            path: "/srv/site.css".to_string(),
            content_type: ContentType("text/css".to_string()),
        })
    );
}

#[test]
fn resolve_takes_an_unknown_extension_for_bytes() {
    let lookup = Lookup { path: "/srv/blob.lolka".to_string(), index: false };
    match server().resolve(lookup, PathKind::File) {
        Step::Open(target) => assert_eq!(target.content_type.0, "application/octet-stream"),
        other => panic!("unexpected step: {:?}", other),
    }
}

#[test]
fn resolve_looks_for_the_index_of_a_directory() {
    let lookup = Lookup { path: "/srv/docs".to_string(), index: false };
    assert_eq!(
        server().resolve(lookup, PathKind::Directory),
        Step::Stat(Lookup { path: "/srv/docs/index.html".to_string(), index: true })
    );
}

#[test]
fn resolve_types_the_index_as_html() {
    let lookup = Lookup { path: "/srv/docs/index.html".to_string(), index: true };
    match server().resolve(lookup, PathKind::File) {
        Step::Open(target) => assert_eq!(target.content_type, ContentType::html()),
        other => panic!("unexpected step: {:?}", other),
    }
    assert_eq!(ContentType::html().0, "text/html");
    assert_eq!(ContentType::guess("/srv/docs/index.html"), ContentType::html());
    assert_eq!(ContentType::guess("index.html"), ContentType::html());
}

#[test]
fn validate_reads_the_file_of_a_new_client() {
    let target = Target { path: "/srv/a.txt".to_string(), content_type: ContentType::guess("a.txt") };
    let (etag, modified) = cache_headers(&hello_stats());
    assert_eq!(
        server().validate(&get("/a.txt"), target, Ok(hello_stats())),
        Step::Read(Snapshot {
            path: "/srv/a.txt".to_string(),
            content_type: ContentType("text/plain".to_string()),
            etag,
            modified,
        })
    );
}

#[test]
fn cache_response_is_there_on_a_match_only() {
    let server = server();
    let (etag, _) = cache_headers(&hello_stats());
    let hit = Request { if_none_match: Some(IfNoneMatch::Items(vec![etag.clone()])), ..get("/a.txt") };
    assert_eq!(server.cache_response(&hit, &etag), Some(Response::new(StatusCode::NotModified)));
    assert_eq!(server.cache_response(&get("/a.txt"), &etag), None);
    let any = Request { if_none_match: Some(IfNoneMatch::Any), ..get("/a.txt") };
    assert_eq!(server.cache_response(&any, &etag), None);
}

#[test]
fn plain_answers() {
    let server = server();
    assert_eq!(server.not_found().body, b"<h1>Page not found</h1>".to_vec());
    assert_eq!(server.method_not_allowed().body, b"<h1>Method is not allowed</h1>".to_vec());
    let error = server.internal_error("d\u{e9}j\u{e0} vu".to_string());
    assert_eq!(error.status, StatusCode::InternalServerError);
    assert_eq!(error.body, "d\u{e9}j\u{e0} vu".as_bytes().to_vec());
    assert_eq!(Response::new(StatusCode::NotModified).body, Vec::<u8>::new());
    assert_eq!(Response::new(StatusCode::NotFound).with_body(vec![1, 2]).body, vec![1, 2]);
}

#[test]
fn file_response_counts_the_bytes_it_sends() {
    let etag = EntityTag::strong("7".to_string());
    let response = Response::file(vec![1, 2, 3], Encoding::Deflate, ContentType::html(), etag.clone(), None);
    assert_eq!(response.headers.content_length, Some(3));
    assert_eq!(response.headers.content_encoding, Some(Encoding::Deflate));
    assert_eq!(response.headers.etag, Some(etag.clone()));
    let response = Response::file(vec![], Encoding::Identity, ContentType::html(), etag, None);
    assert_eq!(response.headers.content_length, Some(0));
    assert_eq!(response.headers.content_encoding, None);
}
