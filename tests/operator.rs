use component_system::operator::{
    collection_logical_size_delta, reader_or_error, MaterializeLogOperator,
    MaterializeLogOperatorError, ReaderCreationError,
};

#[test]
fn operator_is_stateless() {
    let op = MaterializeLogOperator::new();
    let _: &MaterializeLogOperator = &op;
}

#[test]
fn reader_outcomes() {
    assert_eq!(reader_or_error::<u8>(Ok(3)), Ok(Some(3)));
    assert_eq!(reader_or_error::<u8>(Err(ReaderCreationError::UninitializedSegment)), Ok(None));
    assert_eq!(
        reader_or_error::<u8>(Err(ReaderCreationError::Failed("io".to_string()))),
        Err(MaterializeLogOperatorError::RecordSegmentReaderCreationFailed(
            ReaderCreationError::Failed("io".to_string())
        ))
    );
}

#[test]
fn logical_size_delta_sums_in_order() {
    assert_eq!(collection_logical_size_delta(&vec![]), Some(0));
    assert_eq!(collection_logical_size_delta(&vec![10, -3, 25]), Some(32));
    assert_eq!(collection_logical_size_delta(&vec![i64::MAX, 1, -5]), None);
    assert_eq!(collection_logical_size_delta(&vec![i64::MIN, -1]), None);
    assert_eq!(collection_logical_size_delta(&vec![i64::MAX, -1, 1]), Some(i64::MAX));
}
