use r2_client::{Bucket, Date, HttpMetadata, Include, R2Data};

fn dummy_properties() -> (HttpMetadata, Vec<(String, String)>) {
    let http_metadata = HttpMetadata {
        content_type: Some("text/text".into()),
        content_language: Some("en-US".into()),
        content_disposition: Some("inline".into()),
        content_encoding: Some("gzip".into()),
        cache_control: Some("immutable".into()),
        cache_expiry: Some(Date::from_millis(1_000_000)),
    };
    let custom_metadata = vec![(String::from("a"), String::from("b"))];
    (http_metadata, custom_metadata)
}

fn seed_bucket(bucket: &mut Bucket) {
    bucket
        .put("no-props", R2Data::Text(String::from("text")))
        .execute(bucket)
        .expect("put should succeed");
    bucket
        .put("no-props-no-body", R2Data::Empty)
        .execute(bucket)
        .expect("put should succeed");
    let (http_metadata, custom_metadata) = dummy_properties();
    let digest: [u8; 16] = md5::compute("example").into();
    bucket
        .put("with-props", R2Data::Text(String::from("example")))
        .http_metadata(http_metadata)
        .custom_metdata(custom_metadata)
        .md5(digest.to_vec())
        .execute(bucket)
        .expect("put should succeed");
}

#[test]
fn list_empty_bucket() {
    let bucket = Bucket::new();
    let objects = bucket.list().execute(&bucket).expect("list should succeed");
    assert_eq!(objects.objects().len(), 0);
    assert!(!objects.truncated());
    assert_eq!(objects.cursor(), None);
}

#[test]
fn list_seeded_bucket_with_cursor() {
    let mut bucket = Bucket::new();
    seed_bucket(&mut bucket);

    let objects = bucket.list().execute(&bucket).expect("list should succeed");
    assert_eq!(objects.objects().len(), 3);
    assert!(!objects.truncated());
    assert_eq!(objects.cursor(), None);

    let objects = bucket.list().limit(1).execute(&bucket).expect("list should succeed");
    assert_eq!(objects.objects().len(), 1);
    assert!(objects.truncated());
    let cursor = objects.cursor().expect("a truncated page carries a cursor");

    let objects_2 = bucket
        .list()
        .cursor(cursor)
        .execute(&bucket)
        .expect("list should succeed");
    assert_eq!(objects_2.objects().len(), 2);
    assert!(!objects_2.truncated());
}

#[test]
fn list_with_prefix() {
    let mut bucket = Bucket::new();
    seed_bucket(&mut bucket);

    let with_prefix = bucket
        .list()
        .prefix(String::from("no-"))
        .execute(&bucket)
        .expect("list should succeed");
    let keys: Vec<String> = with_prefix.objects().into_iter().map(|o| o.key).collect();
    assert_eq!(keys, vec![String::from("no-props"), String::from("no-props-no-body")]);
    assert!(!with_prefix.truncated());
}

#[test]
fn list_include_flags_gate_metadata() {
    let mut bucket = Bucket::new();
    seed_bucket(&mut bucket);

    let objects = bucket
        .list()
        .includes(vec![Include::CustomMetadata])
        .execute(&bucket)
        .expect("list should succeed");
    let count = objects
        .objects()
        .into_iter()
        .filter(|obj| !obj.custom_metadata.is_empty())
        .count();
    assert_eq!(count, 1);

    let objects = bucket
        .list()
        .includes(vec![Include::HttpMetadata])
        .execute(&bucket)
        .expect("list should succeed");
    let count = objects
        .objects()
        .into_iter()
        .filter(|obj| obj.http_metadata.content_type.is_some())
        .count();
    assert_eq!(count, 1);

    let objects = bucket.list().execute(&bucket).expect("list should succeed");
    for obj in objects.objects() {
        assert!(obj.http_metadata.content_type.is_none());
        assert!(obj.custom_metadata.is_empty());
    }
}

#[test]
fn pagination_covers_every_key_exactly_once() {
    let mut bucket = Bucket::new();
    let keys = ["a", "b", "c", "d", "e"];
    for key in keys {
        bucket
            .put(key, R2Data::Empty)
            .execute(&mut bucket)
            .expect("put should succeed");
    }

    let mut seen: Vec<String> = Vec::new();
    let mut pages = 0usize;
    let mut cursor: Option<String> = None;
    loop {
        let mut builder = bucket.list().limit(2);
        if let Some(c) = cursor.take() {
            builder = builder.cursor(c);
        }
        let page = builder.execute(&bucket).expect("list should succeed");
        pages += 1;
        for obj in page.objects() {
            seen.push(obj.key);
        }
        assert_eq!(page.cursor().is_some(), page.truncated());
        if page.truncated() {
            cursor = page.cursor();
        } else {
            break;
        }
    }
    assert_eq!(pages, 3, "five keys with limit two make ceil(5/2) pages");
    assert_eq!(seen, vec!["a", "b", "c", "d", "e"]);
}

#[test]
fn limit_is_clamped_into_one_to_one_thousand() {
    let mut bucket = Bucket::new();
    bucket.put("a", R2Data::Empty).execute(&mut bucket).expect("put should succeed");
    bucket.put("b", R2Data::Empty).execute(&mut bucket).expect("put should succeed");

    let zero = bucket.list().limit(0).execute(&bucket).expect("list should succeed");
    assert_eq!(zero.objects().len(), 1, "a limit of zero is clamped up to one");
    assert!(zero.truncated());

    let huge = bucket.list().limit(2000).execute(&bucket).expect("list should succeed");
    assert_eq!(huge.objects().len(), 2, "an oversized limit is clamped to the ceiling");
    assert!(!huge.truncated());
}

#[test]
fn unknown_cursor_yields_empty_final_page() {
    let mut bucket = Bucket::new();
    bucket.put("a", R2Data::Empty).execute(&mut bucket).expect("put should succeed");
    let page = bucket
        .list()
        .cursor(String::from("not-a-real-cursor"))
        .execute(&bucket)
        .expect("list should succeed");
    assert_eq!(page.objects().len(), 0);
    assert!(!page.truncated());
    assert_eq!(page.cursor(), None);
}

#[test]
fn delimiter_groups_keys_into_prefixes() {
    let mut bucket = Bucket::new();
    for key in ["foo/bar/baz", "foo/quux", "plain"] {
        bucket
            .put(key, R2Data::Empty)
            .execute(&mut bucket)
            .expect("put should succeed");
    }

    let grouped = bucket
        .list()
        .delimiter(String::from("/"))
        .execute(&bucket)
        .expect("list should succeed");
    let keys: Vec<String> = grouped.objects().into_iter().map(|o| o.key).collect();
    assert_eq!(keys, vec![String::from("plain")]);
    assert_eq!(grouped.delimited_prefixes(), vec![String::from("foo")]);

    let under_foo = bucket
        .list()
        .prefix(String::from("foo/"))
        .delimiter(String::from("/"))
        .execute(&bucket)
        .expect("list should succeed");
    let keys: Vec<String> = under_foo.objects().into_iter().map(|o| o.key).collect();
    assert_eq!(keys, vec![String::from("foo/quux")]);
    assert_eq!(under_foo.delimited_prefixes(), vec![String::from("foo/bar")]);
}
