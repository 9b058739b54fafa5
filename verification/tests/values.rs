use r2_client::{
    Bucket, Date, Error, HttpMetadata, R2Conditional, R2Data, R2Range, Range,
};

#[test]
fn range_with_length_and_suffix_is_rejected() {
    let raw = R2Range { offset: None, length: Some(4), suffix: Some(2) };
    assert_eq!(Range::try_from(raw).expect_err("length with suffix is invalid"), Error::InvalidRange);
}

#[test]
fn range_with_offset_and_suffix_is_rejected() {
    let raw = R2Range { offset: Some(1), length: None, suffix: Some(2) };
    assert_eq!(Range::try_from(raw).expect_err("offset with suffix is invalid"), Error::InvalidRange);
}

#[test]
fn range_with_no_fields_is_rejected() {
    let raw = R2Range { offset: None, length: None, suffix: None };
    assert_eq!(Range::try_from(raw).expect_err("an empty range is invalid"), Error::InvalidRange);
}

#[test]
fn valid_ranges_construct_and_encode_back() {
    let raw = R2Range { offset: Some(3), length: Some(4), suffix: None };
    let range = Range::try_from(raw).expect("offset with length is valid");
    let back = range.to_raw();
    assert_eq!(back.offset, Some(3));
    assert_eq!(back.length, Some(4));
    assert_eq!(back.suffix, None);

    let raw = R2Range { offset: None, length: None, suffix: Some(5) };
    let range = Range::try_from(raw).expect("a suffix alone is valid");
    assert_eq!(range.to_raw().suffix, Some(5));
}

fn read_back(bucket: &Bucket, key: &str, range: Option<Range>) -> (u64, Option<Vec<u8>>) {
    let mut builder = bucket.get(key);
    if let Some(r) = range {
        builder = builder.range(r);
    }
    let mut obj = builder
        .execute(bucket)
        .expect("get should succeed")
        .expect("key should exist");
    let size = obj.size;
    match obj.body() {
        Some(mut body) => {
            let mut stream = body.stream().expect("first stream call succeeds");
            (size, Some(stream.read_all()))
        },
        None => (size, None),
    }
}

#[test]
fn ranged_get_serves_the_requested_window() {
    let mut bucket = Bucket::new();
    bucket
        .put("r", R2Data::Bytes(vec![10, 11, 12, 13, 14, 15]))
        .execute(&mut bucket)
        .expect("put should succeed");

    let (size, bytes) = read_back(&bucket, "r", Some(Range::OffsetWithLength { offset: 1, length: 3 }));
    assert_eq!(size, 3);
    assert_eq!(bytes, Some(vec![11, 12, 13]));

    let (size, bytes) = read_back(&bucket, "r", Some(Range::Suffix { suffix: 2 }));
    assert_eq!(size, 2);
    assert_eq!(bytes, Some(vec![14, 15]));

    let (size, bytes) = read_back(
        &bucket,
        "r",
        Some(Range::OffsetWithOptionalLength { offset: 4, length: None }),
    );
    assert_eq!(size, 2);
    assert_eq!(bytes, Some(vec![14, 15]));

    let (size, bytes) = read_back(
        &bucket,
        "r",
        Some(Range::OptionalOffsetWithLength { offset: None, length: 2 }),
    );
    assert_eq!(size, 2);
    assert_eq!(bytes, Some(vec![10, 11]));
}

#[test]
fn range_beyond_the_object_serves_nothing() {
    let mut bucket = Bucket::new();
    bucket
        .put("short", R2Data::Bytes(vec![1, 2]))
        .execute(&mut bucket)
        .expect("put should succeed");
    let (size, bytes) = read_back(
        &bucket,
        "short",
        Some(Range::OffsetWithLength { offset: 10, length: 4 }),
    );
    assert_eq!(size, 0);
    assert_eq!(bytes, None, "an empty window attaches no body");
}

#[test]
fn conditional_failure_returns_metadata_without_body() {
    let mut bucket = Bucket::new();
    bucket
        .put("guarded", R2Data::Text(String::from("value")))
        .execute(&mut bucket)
        .expect("put should succeed");

    let cond = R2Conditional {
        etag_matches: Some(String::from("cannot-match-any-real-etag")),
        etag_does_not_match: None,
        uploaded_before: None,
        uploaded_after: None,
    };
    let mut obj = bucket
        .get("guarded")
        .only_if(cond)
        .execute(&bucket)
        .expect("get should succeed")
        .expect("the key still resolves to its metadata");
    assert_eq!(obj.key, "guarded");
    assert_eq!(obj.size, 5);
    assert!(obj.body().is_none(), "a failed conditional withholds the body");
}

#[test]
fn conditional_match_on_real_etag_serves_body() {
    let mut bucket = Bucket::new();
    let stored = bucket
        .put("guarded", R2Data::Text(String::from("value")))
        .execute(&mut bucket)
        .expect("put should succeed");

    let cond = R2Conditional {
        etag_matches: Some(stored.etag.clone()),
        etag_does_not_match: None,
        uploaded_before: None,
        uploaded_after: None,
    };
    let mut obj = bucket
        .get("guarded")
        .only_if(cond)
        .execute(&bucket)
        .expect("get should succeed")
        .expect("key exists");
    assert!(obj.body().is_some());
}

#[test]
fn conditional_on_upload_time_uses_the_store_clock() {
    let mut bucket = Bucket::new();
    bucket.set_time(Date::from_millis(100));
    bucket
        .put("timed", R2Data::Text(String::from("x")))
        .execute(&mut bucket)
        .expect("put should succeed");

    let before = R2Conditional {
        etag_matches: None,
        etag_does_not_match: None,
        uploaded_before: Some(Date::from_millis(200)),
        uploaded_after: None,
    };
    let mut obj = bucket
        .get("timed")
        .only_if(before)
        .execute(&bucket)
        .expect("get should succeed")
        .expect("key exists");
    assert!(obj.body().is_some(), "uploaded at 100, which is before 200");

    let after = R2Conditional {
        etag_matches: None,
        etag_does_not_match: None,
        uploaded_before: None,
        uploaded_after: Some(Date::from_millis(200)),
    };
    let mut obj = bucket
        .get("timed")
        .only_if(after)
        .execute(&bucket)
        .expect("get should succeed")
        .expect("key exists");
    assert!(obj.body().is_none(), "uploaded at 100, which is not after 200");
}

#[test]
fn metadata_round_trip_field_for_field() {
    let mut bucket = Bucket::new();
    let http_metadata = HttpMetadata {
        content_type: Some("text/text".into()),
        content_language: Some("en-US".into()),
        content_disposition: Some("inline".into()),
        content_encoding: Some("gzip".into()),
        cache_control: Some("immutable".into()),
        cache_expiry: Some(Date::from_millis(42)),
    };
    let custom_metadata = vec![(String::from("a"), String::from("b"))];
    bucket
        .put("with-props", R2Data::Text(String::from("example")))
        .http_metadata(http_metadata)
        .custom_metdata(custom_metadata)
        .execute(&mut bucket)
        .expect("put should succeed");

    let obj = bucket
        .get("with-props")
        .execute(&bucket)
        .expect("get should succeed")
        .expect("key exists");
    assert_eq!(obj.http_metadata.content_type.as_deref(), Some("text/text"));
    assert_eq!(obj.http_metadata.content_language.as_deref(), Some("en-US"));
    assert_eq!(obj.http_metadata.content_disposition.as_deref(), Some("inline"));
    assert_eq!(obj.http_metadata.content_encoding.as_deref(), Some("gzip"));
    assert_eq!(obj.http_metadata.cache_control.as_deref(), Some("immutable"));
    assert_eq!(obj.http_metadata.cache_expiry, Some(Date::from_millis(42)));
    assert_eq!(obj.custom_metadata, vec![(String::from("a"), String::from("b"))]);
}

#[test]
fn etag_is_the_hex_md5_of_the_content() {
    let mut bucket = Bucket::new();
    let stored = bucket
        .put("hashed", R2Data::Text(String::from("example")))
        .execute(&mut bucket)
        .expect("put should succeed");
    let expected = format!("{:x}", md5::compute("example"));
    assert_eq!(stored.etag, expected);
    assert_eq!(stored.http_etag, format!("\"{}\"", expected));
}

#[test]
fn matching_md5_commits_the_write() {
    let mut bucket = Bucket::new();
    let digest: [u8; 16] = md5::compute("example").into();
    bucket
        .put("checked", R2Data::Text(String::from("example")))
        .md5(digest.to_vec())
        .execute(&mut bucket)
        .expect("a matching checksum commits");
    assert!(bucket.head("checked").expect("head should succeed").is_some());
}

#[test]
fn mismatched_md5_aborts_without_commit() {
    let mut bucket = Bucket::new();
    let digest: [u8; 16] = md5::compute("something else").into();
    let err = bucket
        .put("checked", R2Data::Text(String::from("example")))
        .md5(digest.to_vec())
        .execute(&mut bucket)
        .expect_err("a mismatched checksum aborts the put");
    assert_eq!(err, Error::IntegrityMismatch);
    assert!(bucket.head("checked").expect("head should succeed").is_none());
}

#[test]
fn builder_setters_overwrite_prior_values() {
    let mut bucket = Bucket::new();
    for key in ["aa", "ab"] {
        bucket
            .put(key, R2Data::Empty)
            .execute(&mut bucket)
            .expect("put should succeed");
    }
    let page = bucket
        .list()
        .prefix(String::from("zzz"))
        .prefix(String::from("a"))
        .execute(&bucket)
        .expect("list should succeed");
    assert_eq!(page.objects().len(), 2, "the later prefix wins");
}
