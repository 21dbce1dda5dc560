use vstd::prelude::*;

verus! {

/// Where the transactions to replay are read from.
#[derive(Clone, Copy, Debug, PartialEq, Eq, Structural)]
pub enum TxnSourceKind {
    /// A compressed archive of transactions.
    TransactionFile,
    /// The database directory of a node.
    StateManagerDatabaseDir,
}

/// Why a replay cannot start.
#[derive(Clone, Copy, Debug, PartialEq, Eq, Structural)]
pub enum ReplayError {
    /// The source is neither a file nor a directory.
    InvalidTransactionSource,
}

/// How to read a source path: a file is an archive, a directory a node's
/// database; anything else is refused.
pub fn source_kind(is_file: bool, is_dir: bool) -> (r: Result<TxnSourceKind, ReplayError>)
    ensures
        is_file ==> r == Ok::<TxnSourceKind, ReplayError>(TxnSourceKind::TransactionFile),
        !is_file && is_dir ==> r == Ok::<TxnSourceKind, ReplayError>(
            TxnSourceKind::StateManagerDatabaseDir,
        ),
        !is_file && !is_dir ==> r == Err::<TxnSourceKind, ReplayError>(
            ReplayError::InvalidTransactionSource,
        ),
{
    if is_file {
        Ok(TxnSourceKind::TransactionFile)
    } else if is_dir {
        Ok(TxnSourceKind::StateManagerDatabaseDir)
    } else {
        Err(ReplayError::InvalidTransactionSource)
    }
}

/// Whether the database is already at (or past) the version to replay up
/// to; without a limit, only the largest version is.
pub fn is_up_to_date(cur_version: u64, max_version: Option<u64>) -> (r: bool)
    ensures
        r == match max_version {
            Some(m) => cur_version >= m,
            None => cur_version == u64::MAX,
        },
{
    let limit = match max_version {
        Some(m) => m,
        None => u64::MAX,
    };
    cur_version >= limit
}

/// Whether progress is reported after reaching `new_version`: for each of
/// the first thousand versions, then every thousandth.
pub fn should_report_progress(new_version: u64) -> (r: bool)
    ensures
        r == (new_version < 1000 || new_version % 1000 == 0),
{
    new_version < 1000 || new_version % 1000 == 0
}

/// An elapsed time in seconds as hours, minutes (below 60) and seconds
/// (below 60).
pub fn hours_minutes_seconds(elapsed_secs: u64) -> (r: (u64, u64, u64))
    ensures
        r.0 == elapsed_secs / 3600,
        r.1 == (elapsed_secs / 60) % 60,
        r.2 == elapsed_secs % 60,
{
    let seconds = elapsed_secs % 60;
    let minutes = (elapsed_secs / 60) % 60;
    let hours = (elapsed_secs / 60) / 60;
    assert((elapsed_secs / 60) / 60 == elapsed_secs / 3600) by (nonlinear_arith);
    (hours, minutes, seconds)
}

/// The hours, minutes and seconds of an elapsed time add up to it, and
/// minutes and seconds are below 60.
pub proof fn lemma_hours_minutes_seconds(elapsed_secs: u64)
    ensures
        (elapsed_secs / 3600) * 3600 + ((elapsed_secs / 60) % 60) * 60 + elapsed_secs % 60
            == elapsed_secs,
        (elapsed_secs / 60) % 60 < 60,
        elapsed_secs % 60 < 60,
{
    let s = elapsed_secs as int;
    assert(s == (s / 60) * 60 + s % 60) by (nonlinear_arith);
    assert(s / 60 == ((s / 60) / 60) * 60 + (s / 60) % 60) by (nonlinear_arith);
    assert((s / 60) / 60 == s / 3600) by (nonlinear_arith);
    assert(s == (s / 3600) * 3600 + ((s / 60) % 60) * 60 + s % 60) by (nonlinear_arith)
        requires
            s == (s / 60) * 60 + s % 60,
            s / 60 == (s / 3600) * 60 + (s / 60) % 60,
    ;
}

/// The network a replay runs on: when a name was given, the network it
/// parses to, or the parse failure; otherwise mainnet.
pub fn choose_network<N, E>(named: Option<Result<N, E>>, mainnet: N) -> (r: Result<N, E>)
    ensures
        match named {
            None => r == Ok::<N, E>(mainnet),
            Some(parsed) => r == parsed,
        },
{
    match named {
        None => Ok(mainnet),
        Some(parsed) => parsed,
    }
}

} // verus!
