//! The ways in which preparing a dataset can fail, and how the outcomes of
//! many rows are gathered into one.

use vstd::prelude::*;
use vstd::string::StringExecFns;

verus! {

/// Why an input table was turned down.
#[derive(Debug, Clone, Copy, PartialEq, Eq, Structural)]
pub enum DatasetError {
    /// A required column is missing.
    SchemaInvalid,
    /// A row could not be read into the fields that are expected of it.
    RecordParse,
}

/// The line shown to the user for a table without the required columns.
pub open spec fn schema_invalid_text() -> Seq<char> {
    "Invalid file format! The CSV file must contain the columns: 'ChunkIDs', 'ChunkTexts', 'Question', 'Answer', 'Quoted_Text_ID'"@
}

/// The line shown to the user for a row that could not be read.
pub open spec fn record_parse_text() -> Seq<char> {
    "Invalid input! A row of the CSV file could not be read"@
}

impl DatasetError {
    /// The line shown to the user for this error.
    pub open spec fn text(self) -> Seq<char> {
        match self {
            DatasetError::SchemaInvalid => schema_invalid_text(),
            DatasetError::RecordParse => record_parse_text(),
        }
    }

    /// The line to show to the user.
    pub fn message(&self) -> (line: String)
        ensures
            line@ == self.text(),
    {
        match self {
            DatasetError::SchemaInvalid => String::from_str(
                "Invalid file format! The CSV file must contain the columns: 'ChunkIDs', 'ChunkTexts', 'Question', 'Answer', 'Quoted_Text_ID'",
            ),
            DatasetError::RecordParse => String::from_str(
                "Invalid input! A row of the CSV file could not be read",
            ),
        }
    }
}

/// All the items where every outcome is an item; else the first error.
pub open spec fn gather<T>(outcomes: Seq<Result<T, DatasetError>>) -> Result<Seq<T>, DatasetError>
    decreases outcomes.len(),
{
    if outcomes.len() == 0 {
        Ok(Seq::<T>::empty())
    } else {
        match gather(outcomes.drop_last()) {
            Err(e) => Err(e),
            Ok(items) => match outcomes.last() {
                Ok(item) => Ok(items.push(item)),
                Err(e) => Err(e),
            },
        }
    }
}

/// Outcome `n` is an error, and none before it is.
pub open spec fn first_error_at<T>(outcomes: Seq<Result<T, DatasetError>>, n: int) -> bool {
    &&& 0 <= n < outcomes.len()
    &&& outcomes[n].is_err()
    &&& forall|i: int| 0 <= i < n ==> (#[trigger] outcomes[i]).is_ok()
}

/// An error among the first `n` outcomes is the error of the whole.
pub proof fn lemma_gather_keeps_error<T>(outcomes: Seq<Result<T, DatasetError>>, n: int)
    requires
        0 <= n <= outcomes.len(),
        gather(outcomes.take(n)).is_err(),
    ensures
        gather(outcomes) == gather(outcomes.take(n)),
    decreases outcomes.len() - n,
{
    if n == outcomes.len() {
        assert(outcomes.take(n) =~= outcomes);
    } else {
        assert(outcomes.take(n + 1).drop_last() =~= outcomes.take(n));
        lemma_gather_keeps_error(outcomes, n + 1);
    }
}

/// One more item after `n` items that were gathered.
pub proof fn lemma_gather_step<T>(outcomes: Seq<Result<T, DatasetError>>, n: int)
    requires
        0 <= n < outcomes.len(),
        gather(outcomes.take(n)).is_ok(),
    ensures
        gather(outcomes.take(n + 1)) == match outcomes[n] {
            Ok(item) => Ok::<Seq<T>, DatasetError>(gather(outcomes.take(n)).unwrap().push(item)),
            Err(e) => Err::<Seq<T>, DatasetError>(e),
        },
{
    assert(outcomes.take(n + 1).drop_last() =~= outcomes.take(n));
    assert(outcomes.take(n + 1).last() == outcomes[n]);
}

/// Where all outcomes are items, there are as many items as outcomes, and
/// each item stands where its outcome stood.
pub proof fn lemma_gather_all<T>(outcomes: Seq<Result<T, DatasetError>>)
    requires
        gather(outcomes).is_ok(),
    ensures
        gather(outcomes).unwrap().len() == outcomes.len(),
        forall|i: int|
            0 <= i < outcomes.len() ==> #[trigger] outcomes[i] == Ok::<T, DatasetError>(
                gather(outcomes).unwrap()[i],
            ),
    decreases outcomes.len(),
{
    if outcomes.len() > 0 {
        lemma_gather_all(outcomes.drop_last());
        let front = gather(outcomes.drop_last()).unwrap();
        assert forall|i: int| 0 <= i < outcomes.len() implies #[trigger] outcomes[i] == Ok::<
            T,
            DatasetError,
        >(gather(outcomes).unwrap()[i]) by {
            if i < outcomes.len() - 1 {
                assert(outcomes.drop_last()[i] == outcomes[i]);
                assert(gather(outcomes).unwrap()[i] == front[i]);
            }
        }
    }
}

} // verus!
