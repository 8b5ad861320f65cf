use vstd::prelude::*;

verus! {

/// Why the reader of an existing record segment could not be made.
#[derive(Debug, PartialEq, Eq)]
pub enum ReaderCreationError {
    /// The segment has not been written to storage yet: a valid state.
    UninitializedSegment,
    /// Any other failure, with its diagnostic.
    Failed(String),
}

/// Failures of the log-materialization step.
#[derive(Debug, PartialEq, Eq)]
pub enum MaterializeLogOperatorError {
    RecordSegmentReaderCreationFailed(ReaderCreationError),
    LogMaterializationFailed(String),
}

/// The step that reconciles write-ahead log records against an existing record
/// segment. It holds no state.
#[derive(Debug)]
pub struct MaterializeLogOperator {}

impl MaterializeLogOperator {
    pub fn new() -> (r: Box<Self>)
        ensures
            *r == (MaterializeLogOperator {}),
    {
        Box::new(MaterializeLogOperator {})
    }
}

/// Turns the outcome of opening a segment reader into the reader the step uses:
/// an uninitialized segment means there is none yet, any other failure ends
/// the step.
pub fn reader_or_error<T>(opened: Result<T, ReaderCreationError>) -> (r: Result<
    Option<T>,
    MaterializeLogOperatorError,
>)
    ensures
        match opened {
            Ok(reader) => r == Ok::<Option<T>, MaterializeLogOperatorError>(Some(reader)),
            Err(ReaderCreationError::UninitializedSegment) => r == Ok::<
                Option<T>,
                MaterializeLogOperatorError,
            >(None),
            Err(e) => r == Err::<Option<T>, MaterializeLogOperatorError>(
                MaterializeLogOperatorError::RecordSegmentReaderCreationFailed(e),
            ),
        },
{
    match opened {
        Ok(reader) => Ok(Some(reader)),
        Err(ReaderCreationError::UninitializedSegment) => Ok(None),
        Err(e) => Err(MaterializeLogOperatorError::RecordSegmentReaderCreationFailed(e)),
    }
}

/// The sum of `s`.
pub open spec fn delta_sum(s: Seq<i64>) -> int
    decreases s.len(),
{
    if s.len() == 0 {
        0
    } else {
        delta_sum(s.drop_last()) + s.last()
    }
}

/// Whether every running total of `s`, taken in order, fits in an `i64`.
pub open spec fn running_totals_fit(s: Seq<i64>) -> bool {
    forall|k: int|
        0 <= k <= s.len() ==> i64::MIN <= #[trigger] delta_sum(s.take(k)) <= i64::MAX
}

/// The change in a collection's logical size: the sum of the records' deltas,
/// added in order; `None` when a running total leaves the `i64` range.
pub fn collection_logical_size_delta(deltas: &Vec<i64>) -> (r: Option<i64>)
    ensures
        running_totals_fit(deltas@) <==> r is Some,
        r matches Some(total) ==> total == delta_sum(deltas@),
{
    let mut total: i64 = 0;
    let mut i: usize = 0;
    assert(deltas@.take(0) =~= Seq::<i64>::empty());
    while i < deltas.len()
        invariant
            i <= deltas@.len(),
            total == delta_sum(deltas@.take(i as int)),
            forall|k: int|
                0 <= k <= i ==> i64::MIN <= #[trigger] delta_sum(deltas@.take(k)) <= i64::MAX,
        decreases deltas@.len() - i,
    {
        let d = deltas[i];
        assert(deltas@.take(i as int + 1).drop_last() =~= deltas@.take(i as int));
        assert(delta_sum(deltas@.take(i as int + 1)) == total + d);
        if (d > 0 && total > i64::MAX - d) || (d < 0 && total < i64::MIN - d) {
            return None;
        }
        total = total + d;
        i = i + 1;
    }
    assert(deltas@.take(i as int) =~= deltas@);
    Some(total)
}

} // verus!
