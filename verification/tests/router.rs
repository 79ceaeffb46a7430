use actix_router::Path;
use actix_router::ResourceDef;
use actix_router::ResourceId;
use actix_router::Router;

#[test]
fn test_recognizer_1() {
    let mut router = Router::<usize>::build();
    router.path("/name", 10).0.set_id(0);
    router.path("/name/{val}", 11).0.set_id(1);
    router.path("/name/{val}/index.html", 12).0.set_id(2);
    router.path("/file/{file}.{ext}", 13).0.set_id(3);
    router.path("/v{val}/{val2}/index.html", 14).0.set_id(4);
    router.path("/v/{tail:.*}", 15).0.set_id(5);
    router.path("/test2/{test}.html", 16).0.set_id(6);
    router.path("/{test}/index.html", 17).0.set_id(7);
    let mut router = router.finish();

    let mut path = Path::new("/unknown");
    assert!(router.recognize_mut(&mut path).is_none());

    let mut path = Path::new("/name");
    let (h, info) = router.recognize_mut(&mut path).unwrap();
    assert_eq!(*h, 10);
    assert_eq!(info, ResourceId(0));
    assert!(path.is_empty());

    let mut path = Path::new("/name/value");
    let (h, info) = router.recognize_mut(&mut path).unwrap();
    assert_eq!(*h, 11);
    assert_eq!(info, ResourceId(1));
    assert_eq!(path.get("val").unwrap(), "value");
    assert_eq!(path.index("val"), "value");

    let mut path = Path::new("/name/value2/index.html");
    let (h, info) = router.recognize_mut(&mut path).unwrap();
    assert_eq!(*h, 12);
    assert_eq!(info, ResourceId(2));
    assert_eq!(path.get("val").unwrap(), "value2");

    let mut path = Path::new("/file/file.gz");
    let (h, info) = router.recognize_mut(&mut path).unwrap();
    assert_eq!(*h, 13);
    assert_eq!(info, ResourceId(3));
    assert_eq!(path.get("file").unwrap(), "file");
    assert_eq!(path.get("ext").unwrap(), "gz");

    let mut path = Path::new("/vtest/ttt/index.html");
    let (h, info) = router.recognize_mut(&mut path).unwrap();
    assert_eq!(*h, 14);
    assert_eq!(info, ResourceId(4));
    assert_eq!(path.get("val").unwrap(), "test");
    assert_eq!(path.get("val2").unwrap(), "ttt");

    let mut path = Path::new("/v/blah-blah/index.html");
    let (h, info) = router.recognize_mut(&mut path).unwrap();
    assert_eq!(*h, 15);
    assert_eq!(info, ResourceId(5));
    assert_eq!(path.get("tail").unwrap(), "blah-blah/index.html");

    let mut path = Path::new("/test2/index.html");
    let (h, info) = router.recognize_mut(&mut path).unwrap();
    assert_eq!(*h, 16);
    assert_eq!(info, ResourceId(6));
    assert_eq!(path.get("test").unwrap(), "index");

    let mut path = Path::new("/bbb/index.html");
    let (h, info) = router.recognize_mut(&mut path).unwrap();
    assert_eq!(*h, 17);
    assert_eq!(info, ResourceId(7));
    assert_eq!(path.get("test").unwrap(), "bbb");
}

#[test]
fn test_recognizer_2() {
    let mut router = Router::<usize>::build();
    router.path("/index.json", 10);
    router.path("/{source}.json", 11);
    let mut router = router.finish();

    let mut path = Path::new("/index.json");
    let (h, _) = router.recognize_mut(&mut path).unwrap();
    assert_eq!(*h, 10);

    let mut path = Path::new("/test.json");
    let (h, _) = router.recognize_mut(&mut path).unwrap();
    assert_eq!(*h, 11);
}

#[test]
fn test_recognizer_with_prefix() {
    let mut router = Router::<usize>::build();
    router.path("/name", 10).0.set_id(0);
    router.path("/name/{val}", 11).0.set_id(1);
    let mut router = router.finish();

    let mut path = Path::new("/name");
    path.skip(5);
    assert!(router.recognize_mut(&mut path).is_none());

    let mut path = Path::new("/test/name");
    path.skip(5);
    let (h, _) = router.recognize_mut(&mut path).unwrap();
    assert_eq!(*h, 10);

    let mut path = Path::new("/test/name/value");
    path.skip(5);
    let (h, id) = router.recognize_mut(&mut path).unwrap();
    assert_eq!(*h, 11);
    assert_eq!(id, ResourceId(1));
    assert_eq!(path.get("val").unwrap(), "value");
    assert_eq!(path.index("val"), "value");

    // same patterns
    let mut router = Router::<usize>::build();
    router.path("/name", 10);
    router.path("/name/{val}", 11);
    let mut router = router.finish();

    let mut path = Path::new("/name");
    path.skip(6);
    assert!(router.recognize_mut(&mut path).is_none());

    let mut path = Path::new("/test2/name");
    path.skip(6);
    let (h, _) = router.recognize_mut(&mut path).unwrap();
    assert_eq!(*h, 10);

    let mut path = Path::new("/test2/name-test");
    path.skip(6);
    assert!(router.recognize_mut(&mut path).is_none());

    let mut path = Path::new("/test2/name/ttt");
    path.skip(6);
    let (h, _) = router.recognize_mut(&mut path).unwrap();
    assert_eq!(*h, 11);
    assert_eq!(path.index("val"), "ttt");
}

#[test]
fn order_priority_earlier_entry_wins() {
    let mut builder = Router::<usize>::build();
    builder.path("/x/{p}", 1).0.set_id(1);
    builder.path("/{q}/y", 2).0.set_id(2);
    let router = builder.finish();

    // "/x/y" matches both patterns; the entry registered first wins.
    let mut path = Path::new("/x/y");
    let (h, id) = router.recognize(&mut path).unwrap();
    assert_eq!(*h, 1);
    assert_eq!(id, ResourceId(1));
    assert_eq!(path.get("p").unwrap(), "y");
    assert!(path.get("q").is_none());
}

#[test]
fn recognize_matches_immutably() {
    let mut builder = Router::<usize>::build();
    builder.path("/name/{val}", 7).0.set_id(3);
    let router = builder.finish();

    let mut path = Path::new("/name/value");
    let (h, id) = router.recognize(&mut path).unwrap();
    assert_eq!(*h, 7);
    assert_eq!(id, ResourceId(3));
    assert_eq!(path.get("val").unwrap(), "value");
}

#[test]
fn repeated_recognition_is_deterministic() {
    let mut builder = Router::<usize>::build();
    builder.path("/a/{x}", 1);
    builder.path("/{y}/b", 2);
    let router = builder.finish();

    for _ in 0..3 {
        let mut path = Path::new("/a/b");
        let (h, id) = router.recognize(&mut path).unwrap();
        assert_eq!(*h, 1);
        assert_eq!(id, ResourceId(0));
        assert_eq!(path.get("x").unwrap(), "b");
    }
}

#[test]
fn no_match_leaves_cursor_untouched() {
    let mut builder = Router::<usize>::build();
    builder.path("/name", 10);
    builder.path("/name/{val}", 11);
    let mut router = builder.finish();

    let mut path = Path::new("/other/name");
    path.skip(3);
    assert!(router.recognize(&mut path).is_none());
    assert!(router.recognize_mut(&mut path).is_none());
    assert!(router.recognize_fn(&mut path, |_p: &Path, _g: &Option<()>| true).is_none());
    assert!(router.recognize_mut_fn(&mut path, |_p: &Path, _g: &Option<()>| true).is_none());
    assert_eq!(path.unprocessed(), "her/name");
    assert!(path.get("val").is_none());
}

#[test]
fn guard_rejection_rolls_back_to_later_entry() {
    let mut builder = Router::<usize, u32>::build();
    builder.path("/name/{first}", 10).2 = Some(1);
    builder.path("/name/{second}", 11).2 = Some(2);
    let router = builder.finish();

    // Entry A matches textually but its guard rejects; entry B matches and
    // its guard accepts: the captures belong to B's pattern exclusively.
    let mut path = Path::new("/name/hello");
    let (h, _) = router
        .recognize_fn(&mut path, |_p: &Path, g: &Option<u32>| *g == Some(2))
        .unwrap();
    assert_eq!(*h, 11);
    assert_eq!(path.get("second").unwrap(), "hello");
    assert!(path.get("first").is_none());
    assert!(path.is_empty());
}

#[test]
fn guard_rejecting_everything_means_no_match() {
    let mut builder = Router::<usize, u32>::build();
    builder.path("/name/{val}", 10).2 = Some(1);
    let mut router = builder.finish();

    let mut path = Path::new("/name/hello");
    assert!(router
        .recognize_fn(&mut path, |_p: &Path, _g: &Option<u32>| false)
        .is_none());
    assert!(router
        .recognize_mut_fn(&mut path, |_p: &Path, _g: &Option<u32>| false)
        .is_none());
    assert_eq!(path.unprocessed(), "/name/hello");
    assert!(path.get("val").is_none());
}

#[test]
fn recognize_mut_fn_mutates_only_winning_handler() {
    let mut builder = Router::<usize, u32>::build();
    builder.path("/a", 1).2 = Some(1);
    builder.path("/{x}", 2).2 = Some(2);
    let mut router = builder.finish();

    let mut path = Path::new("/a");
    {
        let (h, _) = router
            .recognize_mut_fn(&mut path, |_p: &Path, g: &Option<u32>| *g == Some(2))
            .unwrap();
        assert_eq!(*h, 2);
        *h = 20;
    }
    let mut path = Path::new("/b");
    let (h, _) = router.recognize(&mut path).unwrap();
    assert_eq!(*h, 20);
}

#[test]
fn prefix_pattern_consumes_leading_portion() {
    let mut builder = Router::<usize>::build();
    builder.prefix("/name", 10).0.set_id(1);
    let router = builder.finish();

    let mut path = Path::new("/name/value");
    let (h, id) = router.recognize(&mut path).unwrap();
    assert_eq!(*h, 10);
    assert_eq!(id, ResourceId(1));
    assert_eq!(path.unprocessed(), "/value");

    let mut path = Path::new("/name");
    assert!(router.recognize(&mut path).is_some());
    assert!(path.is_empty());

    let mut path = Path::new("/name-test");
    assert!(router.recognize(&mut path).is_none());
    assert_eq!(path.unprocessed(), "/name-test");
}

#[test]
fn rdef_registers_prebuilt_matcher() {
    let def = ResourceDef::parse("/name/{val}").unwrap();
    let mut builder = Router::<usize>::build();
    let entry = builder.rdef(def, 77);
    entry.0.set_id(9);
    assert_eq!(entry.0.id(), 9);
    let router = builder.finish();

    let mut path = Path::new("/name/value");
    let (h, id) = router.recognize(&mut path).unwrap();
    assert_eq!(*h, 77);
    assert_eq!(id, ResourceId(9));
    assert_eq!(path.get("val").unwrap(), "value");
}

#[test]
fn tail_placeholder_accepts_empty_remainder() {
    let mut builder = Router::<usize>::build();
    builder.path("/v/{tail:.*}", 1);
    let router = builder.finish();

    let mut path = Path::new("/v/");
    let (h, _) = router.recognize(&mut path).unwrap();
    assert_eq!(*h, 1);
    assert_eq!(path.get("tail").unwrap(), "");

    let mut path = Path::new("/v");
    assert!(router.recognize(&mut path).is_none());
}

#[test]
fn mixed_segment_splits_at_first_delimiter() {
    let mut builder = Router::<usize>::build();
    builder.path("/file/{file}.{ext}", 1);
    let router = builder.finish();

    let mut path = Path::new("/file/a.b.c");
    let (h, _) = router.recognize(&mut path).unwrap();
    assert_eq!(*h, 1);
    assert_eq!(path.get("file").unwrap(), "a");
    assert_eq!(path.get("ext").unwrap(), "b.c");
}

#[test]
fn chained_routing_hands_remainder_to_inner_router() {
    let mut outer = Router::<usize>::build();
    outer.prefix("/api", 1);
    let outer = outer.finish();

    let mut inner = Router::<usize>::build();
    inner.path("/name/{val}", 2);
    let inner = inner.finish();

    let mut path = Path::new("/api/name/value");
    let (h, _) = outer.recognize(&mut path).unwrap();
    assert_eq!(*h, 1);
    assert_eq!(path.unprocessed(), "/name/value");

    let (h, _) = inner.recognize(&mut path).unwrap();
    assert_eq!(*h, 2);
    assert_eq!(path.get("val").unwrap(), "value");
    assert!(path.is_empty());
}
