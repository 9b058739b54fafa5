use r2_client::{Bucket, Error, R2Data, StreamChunk};

fn get_body_bytes(bucket: &Bucket, key: &str) -> Option<Vec<u8>> {
    let mut obj = bucket
        .get(key)
        .execute(bucket)
        .expect("get should succeed")
        .expect("key should exist");
    let body = obj.body()?;
    let mut body = body;
    let mut stream = body.stream().expect("first stream call succeeds");
    Some(stream.read_all())
}

#[test]
fn put_then_get_text_round_trip() {
    let mut bucket = Bucket::new();
    bucket
        .put("text", R2Data::Text(String::from("text")))
        .execute(&mut bucket)
        .expect("put should succeed");
    let bytes = get_body_bytes(&bucket, "text").expect("text object has a body");
    assert_eq!(bytes, b"text".to_vec());
}

#[test]
fn put_then_get_bytes_round_trip() {
    let mut bucket = Bucket::new();
    bucket
        .put("bytes", R2Data::Bytes(vec![0u8; 32]))
        .execute(&mut bucket)
        .expect("put should succeed");
    let bytes = get_body_bytes(&bucket, "bytes").expect("bytes object has a body");
    assert_eq!(bytes, vec![0u8; 32]);
}

#[test]
fn put_then_get_empty_has_no_body() {
    let mut bucket = Bucket::new();
    bucket
        .put("empty", R2Data::Empty)
        .execute(&mut bucket)
        .expect("put should succeed");
    let mut obj = bucket
        .get("empty")
        .execute(&bucket)
        .expect("get should succeed")
        .expect("empty object exists");
    assert!(obj.body().is_none());
}

#[test]
fn put_then_get_stream_round_trip() {
    let mut bucket = Bucket::new();
    let chunks: Vec<StreamChunk> = (0..16).map(|_| StreamChunk::Bytes(vec![0u8; 16])).collect();
    bucket
        .put("stream", R2Data::from_stream(chunks))
        .execute(&mut bucket)
        .expect("put should succeed");
    let bytes = get_body_bytes(&bucket, "stream").expect("streamed object has a body");
    assert_eq!(bytes, vec![0u8; 256]);
}

#[test]
fn failing_stream_aborts_without_commit() {
    let mut bucket = Bucket::new();
    let chunks = vec![
        StreamChunk::Bytes(vec![1, 2, 3]),
        StreamChunk::Failure,
        StreamChunk::Bytes(vec![4, 5]),
    ];
    let err = bucket
        .put("broken", R2Data::from_stream(chunks))
        .execute(&mut bucket)
        .expect_err("a failing chunk source aborts the put");
    assert_eq!(err, Error::StreamFailure);
    let looked_up = bucket.get("broken").execute(&bucket).expect("get should succeed");
    assert!(looked_up.is_none(), "a failed put must not leave a partial object");
}

#[test]
fn body_stream_is_one_shot() {
    let mut bucket = Bucket::new();
    bucket
        .put("once", R2Data::Text(String::from("only once")))
        .execute(&mut bucket)
        .expect("put should succeed");
    let mut obj = bucket
        .get("once")
        .execute(&bucket)
        .expect("get should succeed")
        .expect("object exists");
    let mut body = obj.body().expect("object has a body");
    let first = body.stream();
    assert!(first.is_ok());
    let second = body.stream();
    assert_eq!(second.expect_err("second stream must fail"), Error::BodyAlreadyConsumed);
}

#[test]
fn byte_stream_yields_chunks_in_order() {
    let mut bucket = Bucket::new();
    bucket
        .put("chunky", R2Data::Bytes(vec![9, 8, 7]))
        .execute(&mut bucket)
        .expect("put should succeed");
    let mut obj = bucket
        .get("chunky")
        .execute(&bucket)
        .expect("get should succeed")
        .expect("object exists");
    let mut body = obj.body().expect("object has a body");
    let mut stream = body.stream().expect("first stream call succeeds");
    let mut collected: Vec<u8> = Vec::new();
    while let Some(chunk) = stream.next_chunk() {
        collected.extend_from_slice(&chunk);
    }
    assert_eq!(collected, vec![9, 8, 7]);
    assert!(stream.next_chunk().is_none());
}

#[test]
fn head_returns_metadata_without_body() {
    let mut bucket = Bucket::new();
    bucket
        .put("k", R2Data::Text(String::from("v")))
        .execute(&mut bucket)
        .expect("put should succeed");
    let mut obj = bucket
        .head("k")
        .expect("head should succeed")
        .expect("key exists");
    assert_eq!(obj.key, "k");
    assert_eq!(obj.size, 1);
    assert!(obj.body().is_none());
}

#[test]
fn head_on_missing_key_is_none() {
    let bucket = Bucket::new();
    let r = bucket.head("doesnt-exist").expect("head should succeed");
    assert!(r.is_none());
}

#[test]
fn get_on_missing_key_is_none() {
    let bucket = Bucket::new();
    let r = bucket.get("doesnt-exist").execute(&bucket).expect("get should succeed");
    assert!(r.is_none());
}

#[test]
fn overwrite_replaces_value_in_place() {
    let mut bucket = Bucket::new();
    bucket
        .put("k", R2Data::Text(String::from("old")))
        .execute(&mut bucket)
        .expect("put should succeed");
    bucket
        .put("other", R2Data::Text(String::from("x")))
        .execute(&mut bucket)
        .expect("put should succeed");
    bucket
        .put("k", R2Data::Text(String::from("new")))
        .execute(&mut bucket)
        .expect("overwrite should succeed");
    let bytes = get_body_bytes(&bucket, "k").expect("object has a body");
    assert_eq!(bytes, b"new".to_vec());
    let listing = bucket.list().execute(&bucket).expect("list should succeed");
    let keys: Vec<String> = listing.objects().into_iter().map(|o| o.key).collect();
    assert_eq!(keys, vec![String::from("k"), String::from("other")]);
}

#[test]
fn delete_then_list_excludes_key() {
    let mut bucket = Bucket::new();
    bucket
        .put("key", R2Data::Empty)
        .execute(&mut bucket)
        .expect("put should succeed");
    let listing = bucket.list().execute(&bucket).expect("list should succeed");
    assert_eq!(listing.objects().len(), 1);

    bucket.delete("key").expect("delete should succeed");

    let listing = bucket.list().execute(&bucket).expect("list should succeed");
    assert_eq!(listing.objects().len(), 0);
}

#[test]
fn delete_of_missing_key_is_ok() {
    let mut bucket = Bucket::new();
    bucket.delete("never-there").expect("deleting an absent key is not an error");
}

#[test]
fn payloads_convert_from_string_and_bytes() {
    let mut bucket = Bucket::new();
    bucket
        .put("s", R2Data::from(String::from("abc")))
        .execute(&mut bucket)
        .expect("put should succeed");
    bucket
        .put("b", R2Data::from(vec![1u8, 2]))
        .execute(&mut bucket)
        .expect("put should succeed");
    assert_eq!(get_body_bytes(&bucket, "s").expect("body"), b"abc".to_vec());
    assert_eq!(get_body_bytes(&bucket, "b").expect("body"), vec![1u8, 2]);
}

#[test]
fn put_version_tags_differ_between_writes() {
    let mut bucket = Bucket::new();
    let first = bucket
        .put("k", R2Data::Text(String::from("a")))
        .execute(&mut bucket)
        .expect("put should succeed");
    let second = bucket
        .put("k", R2Data::Text(String::from("b")))
        .execute(&mut bucket)
        .expect("put should succeed");
    assert_ne!(first.version, second.version);
}
