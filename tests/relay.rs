use chattium_oxide_server::encoding::{negotiate, parse_accept_encoding, Coding, Encoding, QualityItem};
use chattium_oxide_server::message::{ChatMessage, Sender, Timestamp};
use chattium_oxide_server::options::Options;
use chattium_oxide_server::page::{compact, HtmlResponseHandler};
use chattium_oxide_server::router::{poll_reply, route, Body, ClientHandler, Method, Request, Route, Status};
use chattium_oxide_server::store::MessageStore;
use chattium_oxide_server::template::{favicon_url, template};
use std::io::{Read, Write};

fn at(sec: i64) -> Timestamp {
    Timestamp { sec, nsec: 0 }
}

fn msg(name: &str, text: &str) -> ChatMessage {
    ChatMessage {
        id: 0,
        sender: Sender { name: name.to_string(), ip: "forged".to_string() },
        value: text.to_string(),
        time_posted: at(0),
    }
}

fn ids(v: &[ChatMessage]) -> Vec<u64> {
    v.iter().map(|m| m.id).collect()
}

fn store_of(n: u64) -> MessageStore {
    let mut s = MessageStore::new();
    for i in 0..n {
        s.append(msg("a", "hi"), "10.0.0.1".to_string(), at(100 + i as i64));
    }
    s
}

fn request(method: Method) -> Request {
    Request {
        method,
        body_is_text: true,
        message: None,
        cursor: None,
        accept_encoding: Vec::new(),
        remote_addr: "10.0.0.2".to_string(),
    }
}

#[test]
fn ids_are_assigned_from_one_in_log_order() {
    let mut s = MessageStore::new();
    for expected in 1..=5u64 {
        let id = s.append(msg("a", "x"), "1.2.3.4".to_string(), at(0));
        assert_eq!(id, Some(expected));
    }
    assert_eq!(ids(&s.suffix_since_id(0)), vec![1, 2, 3, 4, 5]);
}

#[test]
fn append_stamps_address_and_time() {
    let mut s = MessageStore::new();
    s.append(msg("bob", "hello"), "192.168.1.9".to_string(), Timestamp { sec: 7, nsec: 5 });
    let all = s.suffix_since_id(0);
    assert_eq!(all.len(), 1);
    assert_eq!(all[0].id, 1);
    assert_eq!(all[0].sender.name, "bob");
    assert_eq!(all[0].sender.ip, "192.168.1.9");
    assert_eq!(all[0].value, "hello");
    assert_eq!(all[0].time_posted, Timestamp { sec: 7, nsec: 5 });
}

#[test]
fn cursor_by_id_round_trip() {
    let s = store_of(4);
    assert_eq!(ids(&s.suffix_since_id(2)), vec![3, 4]);
    assert_eq!(ids(&s.suffix_since_id(0)), vec![1, 2, 3, 4]);
    assert_eq!(ids(&s.suffix_since_id(999)), vec![1, 2, 3, 4]);
    assert_eq!(ids(&s.suffix_since_id(4)), Vec::<u64>::new());
    assert_eq!(ids(&s.suffix_since_id(1)), vec![2, 3, 4]);
}

#[test]
fn cursor_on_empty_store() {
    let s = MessageStore::new();
    assert!(s.suffix_since_id(0).is_empty());
    assert!(s.suffix_since_time(at(0)).is_empty());
}

#[test]
fn cursor_by_time() {
    let mut s = MessageStore::new();
    s.append(msg("a", "one"), "ip".to_string(), at(10));
    s.append(msg("a", "two"), "ip".to_string(), at(20));
    s.append(msg("a", "three"), "ip".to_string(), at(30));
    assert_eq!(ids(&s.suffix_since_time(at(20))), vec![2, 3]);
    assert_eq!(ids(&s.suffix_since_time(Timestamp { sec: 20, nsec: 1 })), vec![3]);
    assert_eq!(ids(&s.suffix_since_time(at(5))), vec![1, 2, 3]);
    assert_eq!(ids(&s.suffix_since_time(at(31))), Vec::<u64>::new());
}

#[test]
fn compaction_examples() {
    assert_eq!(compact("a \n\t b"), "a b");
    assert_eq!(compact("<p>  <b>"), "<p><b>");
    assert_eq!(compact("<br />"), "<br/>");
    assert_eq!(compact("a { b } c"), "a{b}c");
}

#[test]
fn compaction_is_idempotent() {
    let inputs = [
        "<html>\n  <head> <title> x </title> </head>\n<body>{ a }  { b }<br /></body></html>",
        "  { {  } }  > < />  \t\n",
        "x / { y } / > z",
        "",
    ];
    for input in inputs.iter() {
        let once = compact(input);
        assert_eq!(compact(&once), once);
    }
}

#[test]
fn accept_encoding_is_parsed() {
    let items = parse_accept_encoding("deflate;q=0.5, gzip;q=0.9");
    assert_eq!(
        items,
        vec![
            QualityItem { coding: Coding::Deflate, quality: 500 },
            QualityItem { coding: Coding::Gzip, quality: 900 },
        ]
    );
    let items = parse_accept_encoding(" identity , br ;q=0.125,gzip;q=1.000, ,deflate;q=2");
    assert_eq!(
        items,
        vec![
            QualityItem { coding: Coding::Identity, quality: 1000 },
            QualityItem { coding: Coding::Other, quality: 125 },
            QualityItem { coding: Coding::Gzip, quality: 1000 },
        ]
    );
}

#[test]
fn encoding_negotiation() {
    assert_eq!(negotiate(&parse_accept_encoding("deflate;q=0.5, gzip;q=0.9")), Encoding::Gzip);
    assert_eq!(negotiate(&Vec::new()), Encoding::Identity);
    assert_eq!(negotiate(&parse_accept_encoding("gzip;q=0.3, deflate;q=0.3")), Encoding::Gzip);
    assert_eq!(negotiate(&parse_accept_encoding("deflate;q=0.3, gzip;q=0.3")), Encoding::Deflate);
    assert_eq!(negotiate(&parse_accept_encoding("identity, br")), Encoding::Identity);
    assert_eq!(negotiate(&parse_accept_encoding("deflate")), Encoding::Deflate);
}

fn gunzip(b: &[u8]) -> String {
    let mut out = String::new();
    flate2::read::GzDecoder::new(b).read_to_string(&mut out).unwrap();
    out
}

#[test]
fn compression_is_computed_once_and_matches_direct_compression() {
    let mut h = HtmlResponseHandler::new("<p>  hello   world  </p>");
    assert_eq!(h.content(), "<p> hello world </p>");
    let accept = parse_accept_encoding("gzip");
    assert!(!h.is_settled(Encoding::Gzip));
    let (e1, b1) = h.respond(&accept);
    assert!(h.is_settled(Encoding::Gzip));
    let (e2, b2) = h.respond(&accept);
    assert_eq!(e1, Encoding::Gzip);
    assert_eq!(e2, Encoding::Gzip);
    assert_eq!(b1, b2);
    assert_eq!(gunzip(&b1), "<p> hello world </p>");
    let mut direct = flate2::write::GzEncoder::new(Vec::new(), flate2::Compression::best());
    direct.write_all(h.content().as_bytes()).unwrap();
    assert_eq!(direct.finish().unwrap(), b1);
}

#[test]
fn deflate_and_identity_forms() {
    let mut h = HtmlResponseHandler::new("<b> x </b>");
    let (e, b) = h.respond(&parse_accept_encoding("deflate"));
    assert_eq!(e, Encoding::Deflate);
    let mut out = String::new();
    flate2::read::DeflateDecoder::new(&b[..]).read_to_string(&mut out).unwrap();
    assert_eq!(out, "<b> x </b>");
    let (e, b) = h.respond(&Vec::new());
    assert_eq!(e, Encoding::Identity);
    assert_eq!(b, b"<b> x </b>".to_vec());
}

#[test]
fn routes_by_method() {
    assert_eq!(route(Method::Post, true), Route::Submit);
    assert_eq!(route(Method::Get, true), Route::Page);
    assert_eq!(route(Method::Trace, true), Route::Poll);
    assert_eq!(route(Method::Other, true), Route::Reject(Status::ImATeapot));
    assert_eq!(route(Method::Post, false), Route::Reject(Status::UnsupportedMediaType));
    assert_eq!(route(Method::Trace, false), Route::Reject(Status::UnprocessableEntity));
    assert_eq!(route(Method::Other, false), Route::Reject(Status::ImATeapot));
    assert_eq!(route(Method::Get, false), Route::Page);
}

#[test]
fn unsupported_method_is_a_teapot() {
    let mut h = ClientHandler::new("<p>x</p>", b"", "", "");
    h.store.append(msg("a", "b"), "ip".to_string(), at(1));
    let mut req = request(Method::Other);
    req.message = Some(msg("c", "d"));
    let r = h.handle(req, at(2));
    assert_eq!(r.status, Status::ImATeapot);
    assert_eq!(r.status.code(), 418);
    assert!(matches!(r.body, Body::Empty));
    assert_eq!(h.store.len(), 1);
}

#[test]
fn unsupported_method_with_binary_body_is_a_teapot() {
    let mut h = ClientHandler::new("<p>x</p>", b"", "", "");
    let mut req = request(Method::Other);
    req.body_is_text = false;
    let r = h.handle(req, at(2));
    assert_eq!(r.status.code(), 418);
    assert!(matches!(r.body, Body::Empty));
    assert_eq!(h.store.len(), 0);
}

#[test]
fn malformed_submission_is_unprocessable() {
    let mut h = ClientHandler::new("<p>x</p>", b"", "", "");
    let r = h.handle(request(Method::Post), at(2));
    assert_eq!(r.status, Status::UnprocessableEntity);
    assert_eq!(r.status.code(), 422);
    assert_eq!(h.store.len(), 0);
}

#[test]
fn non_text_body_is_unsupported_media() {
    let mut h = ClientHandler::new("<p>x</p>", b"", "", "");
    let mut req = request(Method::Post);
    req.body_is_text = false;
    req.message = Some(msg("c", "d"));
    let r = h.handle(req, at(2));
    assert_eq!(r.status.code(), 415);
    assert_eq!(h.store.len(), 0);
}

#[test]
fn submit_then_poll() {
    let mut h = ClientHandler::new("<p>x</p>", b"", "", "");
    let mut req = request(Method::Post);
    req.message = Some(msg("ann", "hey"));
    let r = h.handle(req, at(3));
    assert_eq!(r.status, Status::Success);
    assert_eq!(r.status.code(), 200);
    let mut poll = request(Method::Trace);
    poll.cursor = Some(0);
    let r = h.handle(poll, at(4));
    assert_eq!(r.status.code(), 200);
    match r.body {
        Body::Messages(v) => {
            assert_eq!(ids(&v), vec![1]);
            assert_eq!(v[0].sender.ip, "10.0.0.2");
            assert_eq!(v[0].time_posted, at(3));
        }
        _ => panic!("expected messages"),
    }
    let r = h.handle(request(Method::Trace), at(5));
    assert_eq!(r.status.code(), 422);
}

#[test]
fn page_is_served() {
    let mut h = ClientHandler::new("<p>  {logo_s}  </p>", b"", "", "");
    assert_eq!(h.page.content(), "<p> Ð§<small>@</small>O<sub>2</sub></p>");
    let mut req = request(Method::Get);
    req.accept_encoding = parse_accept_encoding("gzip;q=0.5");
    let r = h.handle(req, at(1));
    assert_eq!(r.status.code(), 200);
    match r.body {
        Body::Page(e, b) => {
            assert_eq!(e, Encoding::Gzip);
            assert_eq!(gunzip(&b), "<p> Ð§<small>@</small>O<sub>2</sub></p>");
        }
        _ => panic!("expected the page"),
    }
}

#[test]
fn failed_serialization_degrades_to_empty_array() {
    let (s, b) = poll_reply(None);
    assert_eq!(s.code(), 202);
    assert_eq!(b, "[]");
    let (s, b) = poll_reply(Some("[1]".to_string()));
    assert_eq!(s.code(), 200);
    assert_eq!(b, "[1]");
}

#[test]
fn template_fills_placeholders() {
    let subs = vec![
        ("a".to_string(), "1".to_string()),
        ("b".to_string(), "{a}".to_string()),
    ];
    assert_eq!(template("{a}-{b}-{c}", &subs), "1-{a}-{c}");
    assert_eq!(favicon_url(b"abc"), "data:image/x-icon;base64,YWJj");
    let h = ClientHandler::new("<link href=\"{favicon}\"><style>{common_css}</style>", b"ab", "p{}", "");
    assert_eq!(h.page.content(), "<link href=\"data:image/x-icon;base64,YWI=\"><style>p{}</style>");
}

#[test]
fn port_and_tls_settings() {
    assert_eq!(Options::choose_port(Some(8080), Some(9000)), Some(9000));
    assert_eq!(Options::choose_port(Some(8080), None), Some(8080));
    assert_eq!(Options::choose_port(Some(65536 + 80), None), Some(80));
    assert_eq!(Options::choose_port(None, None), None);
    assert_eq!(Options::split_ssl("cert.pem;key.pem"), ("cert.pem".to_string(), Some("key.pem".to_string())));
    assert_eq!(Options::split_ssl("c;k;extra"), ("c".to_string(), Some("k".to_string())));
    assert_eq!(Options::split_ssl("only"), ("only".to_string(), None));
    assert_eq!(
        Options::ssl_pair(Some("c".to_string()), Some("k".to_string())),
        Some(("c".to_string(), "k".to_string()))
    );
    assert_eq!(Options::ssl_pair(Some("c".to_string()), None), None);
    assert_eq!(Options::ssl_pair(None, Some("k".to_string())), None);
}
