use diamond_drops::blob::Blob;
use diamond_drops::body::{Body, CodecError, CollationVariables};
use diamond_drops::CHUNK_SIZE;

#[test]
fn collation_size_mod_chunk_size_is_zero() {
    let collation_variables = CollationVariables::standard();
    let collation_size = collation_variables.collation_size();
    assert_eq!(
        collation_size % (CHUNK_SIZE as u32),
        0,
        "Test: collation_size {} % \n            CHUNK_SIZE {} == 0",
        collation_size,
        CHUNK_SIZE
    );
}

#[test]
fn standard_sizes_are_derived_from_the_chunk_count() {
    let vars = CollationVariables::standard();
    assert_eq!(vars.chunks_per_collation(), 32768);
    assert_eq!(vars.collation_size(), 1048576);
    assert_eq!(vars.max_blob_size(), 1015808);
}

#[test]
fn small_configurations_are_constructible() {
    let vars = CollationVariables::new(2).unwrap();
    assert_eq!(vars.chunks_per_collation(), 2);
    assert_eq!(vars.collation_size(), 64);
    assert_eq!(vars.max_blob_size(), 62);
}

#[test]
fn oversized_configuration_is_invalid_input() {
    let r = CollationVariables::new(usize::MAX);
    assert_eq!(r, Err(CodecError::InvalidInput));
}

#[test]
fn chunk_count_over_capacity_is_size_limit_exceeded() {
    let vars = CollationVariables::new(2).unwrap();
    assert_eq!(vars.check_chunk_count(2), Ok(()));
    assert_eq!(vars.check_chunk_count(3), Err(CodecError::SizeLimitExceeded));
}

#[test]
fn oversized_blob_is_rejected_not_spanned() {
    let vars = CollationVariables::new(2).unwrap();
    let fits = Blob::new(vec![5; 62]);
    let chunks = fits.to_chunks_checked(false, &vars).unwrap();
    assert_eq!(chunks.len(), 2);
    let too_big = Blob::new(vec![5; 63]);
    assert_eq!(too_big.to_chunks_checked(false, &vars), Err(CodecError::InvalidInput));
}

#[test]
fn body_holds_at_most_the_capacity() {
    let vars = CollationVariables::new(2).unwrap();
    let chunks = Blob::new(vec![1; 62]).to_chunks(false);
    let body = Body::with_chunks(chunks, &vars).unwrap();
    assert_eq!(body.chunks().len(), 2);
    let too_many = Blob::new(vec![1; 63]).to_chunks(false);
    assert_eq!(Body::with_chunks(too_many, &vars), Err(CodecError::SizeLimitExceeded));
}
