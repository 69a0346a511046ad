//! What every run of a [`SectorRead`](crate::transfer::SectorRead) keeps to,
//! whatever the drive answers.

use vstd::prelude::*;

use crate::data_reader::SectorReadMode;
use crate::errors::CdReaderError;
use crate::retry::RetryConfig;
use crate::transfer::{self, ReadPhase, ReadState};

verus! {

/// Where a read stands after the drive gave the answers `outcomes`, in order.
/// Answers beyond the end of the read are not asked for.
pub open spec fn run(phase: ReadPhase, outcomes: Seq<Result<Seq<u8>, CdReaderError>>) -> ReadPhase
    decreases outcomes.len(),
{
    if outcomes.len() == 0 {
        phase
    } else {
        match phase {
            ReadPhase::Pending(state, _) => run(state.after(outcomes[0]), outcomes.drop_first()),
            _ => phase,
        }
    }
}

/// The bytes of `count` sectors from `lba` on, on a disc with `size` bytes per sector.
pub open spec fn sector_range(disc: Seq<u8>, size: int, lba: int, count: int) -> Seq<u8> {
    disc.subrange(lba * size, (lba + count) * size)
}

/// Whether each successful answer holds the requested sectors of `disc`.
pub open spec fn answers_from(
    disc: Seq<u8>,
    phase: ReadPhase,
    outcomes: Seq<Result<Seq<u8>, CdReaderError>>,
) -> bool
    decreases outcomes.len(),
{
    if outcomes.len() == 0 {
        true
    } else {
        match phase {
            ReadPhase::Pending(state, _) => {
                &&& outcomes[0] matches Ok(chunk) ==> chunk == sector_range(
                    disc,
                    state.mode.bytes_per_sector(),
                    state.lba,
                    state.sectors,
                )
                &&& answers_from(disc, state.after(outcomes[0]), outcomes.drop_first())
            },
            _ => true,
        }
    }
}

/// Whether each successful answer is as long as the requested sectors.
pub open spec fn answers_complete(
    phase: ReadPhase,
    outcomes: Seq<Result<Seq<u8>, CdReaderError>>,
) -> bool
    decreases outcomes.len(),
{
    if outcomes.len() == 0 {
        true
    } else {
        match phase {
            ReadPhase::Pending(state, _) => {
                &&& outcomes[0] matches Ok(chunk) ==> chunk.len() == state.sectors
                    * state.mode.bytes_per_sector()
                &&& answers_complete(state.after(outcomes[0]), outcomes.drop_first())
            },
            _ => true,
        }
    }
}

/// Number of sectors that the first attempt at a chunk asks for.
pub open spec fn first_sectors(mode: SectorReadMode, remaining: int) -> int {
    if remaining < mode.max_sectors_per_transfer() {
        remaining
    } else {
        mode.max_sectors_per_transfer()
    }
}

/// Delay before attempt number `retry + 2` at a chunk: the initial delay, doubled
/// with each further attempt up to the configured bound.
pub open spec fn nth_backoff(cfg: RetryConfig, retry: int) -> int {
    let doubled = cfg.initial_backoff_ms * vstd::arithmetic::power2::pow2(retry as nat);
    if retry <= 0 || cfg.max_backoff_ms == 0 {
        cfg.initial_backoff_ms as int
    } else if doubled < cfg.max_backoff_ms {
        doubled
    } else {
        cfg.max_backoff_ms as int
    }
}

/// What holds of every pending request of a read of `count` sectors at `lba`.
pub open spec fn on_course(
    mode: SectorReadMode,
    cfg: RetryConfig,
    lba: int,
    count: int,
    state: ReadState,
    sleep_ms: int,
) -> bool {
    let most = first_sectors(mode, state.remaining);
    let least = if most < cfg.min_chunk() { most } else { cfg.min_chunk() };
    &&& state.valid()
    &&& state.mode == mode
    &&& state.cfg == cfg
    // what is missing is the end of the requested range
    &&& lba <= state.lba
    &&& state.lba + state.remaining == lba + count
    // chunk sizes
    &&& least <= state.sectors <= most
    &&& (state.attempt == 1 || !cfg.reduce_chunk_on_retry) ==> state.sectors == most
    &&& state.attempt == 2 ==> state.sectors == cfg.chunk_after_failure(most)
    &&& state.attempt >= 3 && cfg.reduce_chunk_on_retry ==> state.sectors == least
    // delays
    &&& state.backoff_ms == nth_backoff(cfg, state.attempt - 1)
    &&& sleep_ms == (if state.attempt == 1 { 0 } else { nth_backoff(cfg, state.attempt - 2) })
}

pub(crate) proof fn lemma_backoff_doubles(cfg: RetryConfig, retry: int)
    requires
        retry >= 0,
    ensures
        cfg.backoff_after(nth_backoff(cfg, retry)) == nth_backoff(cfg, retry + 1),
        0 <= nth_backoff(cfg, retry) <= u64::MAX,
{
    let x = cfg.initial_backoff_ms as int;
    let p = vstd::arithmetic::power2::pow2(retry as nat) as int;
    vstd::arithmetic::power2::lemma_pow2_unfold((retry + 1) as nat);
    vstd::arithmetic::power2::lemma_pow2_pos(retry as nat);
    vstd::arithmetic::power2::lemma2_to64();
    assert(vstd::arithmetic::power2::pow2((retry + 1) as nat) == 2 * p);
    assert(x * (2 * p) == 2 * (x * p)) by (nonlinear_arith);
    assert(x * vstd::arithmetic::power2::pow2((retry + 1) as nat) == 2 * (x * p));
    assert(x * 1 == x);
    assert(x * p >= 0) by (nonlinear_arith)
        requires
            x >= 0,
            p >= 0,
    ;
}

pub(crate) proof fn lemma_step_on_course(
    mode: SectorReadMode,
    cfg: RetryConfig,
    lba: int,
    count: int,
    state: ReadState,
    sleep_ms: int,
    outcome: Result<Seq<u8>, CdReaderError>,
)
    requires
        on_course(mode, cfg, lba, count, state, sleep_ms),
    ensures
        state.after(outcome) matches ReadPhase::Pending(next, sleep) ==> on_course(
            mode,
            cfg,
            lba,
            count,
            next,
            sleep,
        ),
{
    lemma_backoff_doubles(cfg, state.attempt - 1);
    lemma_backoff_doubles(cfg, 0);
}

proof fn lemma_run_on_course(
    mode: SectorReadMode,
    cfg: RetryConfig,
    lba: int,
    count: int,
    phase: ReadPhase,
    outcomes: Seq<Result<Seq<u8>, CdReaderError>>,
)
    requires
        phase matches ReadPhase::Pending(state, sleep) ==> on_course(
            mode,
            cfg,
            lba,
            count,
            state,
            sleep,
        ),
    ensures
        run(phase, outcomes) matches ReadPhase::Pending(state, sleep) ==> on_course(
            mode,
            cfg,
            lba,
            count,
            state,
            sleep,
        ),
    decreases outcomes.len(),
{
    if outcomes.len() > 0 {
        if let ReadPhase::Pending(state, sleep) = phase {
            lemma_step_on_course(mode, cfg, lba, count, state, sleep, outcomes[0]);
            lemma_run_on_course(
                mode,
                cfg,
                lba,
                count,
                state.after(outcomes[0]),
                outcomes.drop_first(),
            );
        }
    }
}

pub(crate) proof fn lemma_initial_on_course(mode: SectorReadMode, cfg: RetryConfig, lba: int, count: int)
    requires
        0 <= lba,
    ensures
        transfer::initial_phase(mode, cfg, lba, count) matches ReadPhase::Pending(state, sleep) ==> on_course(
            mode,
            cfg,
            lba,
            count,
            state,
            sleep,
        ),
{
    lemma_backoff_doubles(cfg, 0);
}

/// Whatever the drive answers, every request of a read is for sectors of the
/// requested range that are still missing, and for the first of them. It asks for
/// at least one sector and no more than 64 KB, never for fewer than
/// the configured minimum unless fewer are missing or fit, and after two failures
/// in a row, if chunks are reduced at all, for exactly that many. The delay before an
/// attempt doubles with each attempt up to the configured bound.
pub proof fn law_requests_stay_on_course(
    mode: SectorReadMode,
    cfg: RetryConfig,
    lba: int,
    count: int,
    outcomes: Seq<Result<Seq<u8>, CdReaderError>>,
)
    requires
        0 <= lba,
        0 <= count,
    ensures
        run(transfer::initial_phase(mode, cfg, lba, count), outcomes) matches ReadPhase::Pending(
            state,
            sleep,
        ) ==> {
            &&& on_course(mode, cfg, lba, count, state, sleep)
            &&& state.lba + state.sectors <= lba + count
            &&& state.sectors * mode.bytes_per_sector() <= 0x1_0000
        },
{
    lemma_initial_on_course(mode, cfg, lba, count);
    lemma_run_on_course(
        mode,
        cfg,
        lba,
        count,
        transfer::initial_phase(mode, cfg, lba, count),
        outcomes,
    );
}

/// Neighbouring ranges of sectors join without a gap or an overlap, and a range is
/// as long as its sectors.
pub proof fn law_adjacent_ranges_join(disc: Seq<u8>, size: int, lba: int, done: int, more: int)
    requires
        size > 0,
        0 <= lba,
        0 <= done,
        0 <= more,
        (lba + done + more) * size <= disc.len(),
    ensures
        sector_range(disc, size, lba, done) + sector_range(disc, size, lba + done, more)
            == sector_range(disc, size, lba, done + more),
        sector_range(disc, size, lba, done).len() == done * size,
{
    assert(0 <= lba * size <= (lba + done) * size <= (lba + done + more) * size)
        by (nonlinear_arith)
        requires
            size > 0,
            0 <= lba,
            0 <= done,
            0 <= more,
    ;
    assert((lba + done) * size - lba * size == done * size) by (nonlinear_arith);
    assert(sector_range(disc, size, lba, done) + sector_range(disc, size, lba + done, more)
        =~= sector_range(disc, size, lba, done + more));
}

/// The bytes that a phase of a read has gathered are those of `disc` from `lba` on.
spec fn gathered_from(
    disc: Seq<u8>,
    mode: SectorReadMode,
    lba: int,
    count: int,
    phase: ReadPhase,
) -> bool {
    let size = mode.bytes_per_sector();
    match phase {
        ReadPhase::Pending(state, _) => {
            &&& state.valid()
            &&& state.mode == mode
            &&& lba <= state.lba
            &&& state.lba + state.remaining == lba + count
            &&& state.data == sector_range(disc, size, lba, state.lba - lba)
        },
        ReadPhase::Done(data) => data == sector_range(disc, size, lba, count),
        ReadPhase::Failed(_) => true,
    }
}

proof fn lemma_run_gathers(
    disc: Seq<u8>,
    mode: SectorReadMode,
    lba: int,
    count: int,
    phase: ReadPhase,
    outcomes: Seq<Result<Seq<u8>, CdReaderError>>,
)
    requires
        0 <= lba,
        (lba + count) * mode.bytes_per_sector() <= disc.len(),
        gathered_from(disc, mode, lba, count, phase),
        answers_from(disc, phase, outcomes),
    ensures
        gathered_from(disc, mode, lba, count, run(phase, outcomes)),
    decreases outcomes.len(),
{
    if outcomes.len() > 0 {
        if let ReadPhase::Pending(state, _) = phase {
            let size = mode.bytes_per_sector();
            let done = state.lba - lba;
            if outcomes[0] is Ok {
                assert((lba + done + state.sectors) * size <= (lba + count) * size)
                    by (nonlinear_arith)
                    requires
                        lba + done + state.sectors <= lba + count,
                        size > 0,
                ;
                law_adjacent_ranges_join(disc, size, lba, done, state.sectors);
            }
            lemma_run_gathers(
                disc,
                mode,
                lba,
                count,
                state.after(outcomes[0]),
                outcomes.drop_first(),
            );
        }
    }
}

/// A read that completes returns exactly the bytes of the requested sectors, in
/// order, provided that each command the drive carries out returns the sectors it
/// was asked for. Failed attempts in between, the delays and the chunk sizes they
/// lead to make no difference.
pub proof fn law_completed_read_returns_the_range(
    disc: Seq<u8>,
    mode: SectorReadMode,
    cfg: RetryConfig,
    lba: int,
    count: int,
    outcomes: Seq<Result<Seq<u8>, CdReaderError>>,
)
    requires
        0 <= lba,
        0 <= count,
        (lba + count) * mode.bytes_per_sector() <= disc.len(),
        answers_from(disc, transfer::initial_phase(mode, cfg, lba, count), outcomes),
    ensures
        run(transfer::initial_phase(mode, cfg, lba, count), outcomes) matches ReadPhase::Done(data) ==> data
            == sector_range(disc, mode.bytes_per_sector(), lba, count),
{
    let size = mode.bytes_per_sector();
    assert(lba * size <= (lba + count) * size) by (nonlinear_arith)
        requires
            0 <= count,
            0 < size,
    ;
    law_adjacent_ranges_join(disc, size, lba, 0, 0);
    assert(sector_range(disc, size, lba, 0) =~= Seq::<u8>::empty());
    lemma_run_gathers(
        disc,
        mode,
        lba,
        count,
        transfer::initial_phase(mode, cfg, lba, count),
        outcomes,
    );
}

/// The bytes that a phase of a read has gathered are as many as the sectors read.
spec fn gathered_length(mode: SectorReadMode, lba: int, count: int, phase: ReadPhase) -> bool {
    let size = mode.bytes_per_sector();
    match phase {
        ReadPhase::Pending(state, _) => {
            &&& state.valid()
            &&& state.mode == mode
            &&& state.lba + state.remaining == lba + count
            &&& state.data.len() == (state.lba - lba) * size
        },
        ReadPhase::Done(data) => data.len() == count * size,
        ReadPhase::Failed(_) => true,
    }
}

proof fn lemma_run_length(
    mode: SectorReadMode,
    lba: int,
    count: int,
    phase: ReadPhase,
    outcomes: Seq<Result<Seq<u8>, CdReaderError>>,
)
    requires
        gathered_length(mode, lba, count, phase),
        answers_complete(phase, outcomes),
    ensures
        gathered_length(mode, lba, count, run(phase, outcomes)),
    decreases outcomes.len(),
{
    if outcomes.len() > 0 {
        if let ReadPhase::Pending(state, _) = phase {
            let size = mode.bytes_per_sector();
            assert((state.lba - lba) * size + state.sectors * size == (state.lba + state.sectors
                - lba) * size) by (nonlinear_arith);
            lemma_run_length(mode, lba, count, state.after(outcomes[0]), outcomes.drop_first());
        }
    }
}

/// A read of `count` sectors that completes returns `count` times the sector size
/// of bytes, provided that no command the drive carries out returns fewer or more
/// bytes than it was asked for.
pub proof fn law_completed_read_has_full_length(
    mode: SectorReadMode,
    cfg: RetryConfig,
    lba: int,
    count: int,
    outcomes: Seq<Result<Seq<u8>, CdReaderError>>,
)
    requires
        0 <= lba,
        0 <= count,
        answers_complete(transfer::initial_phase(mode, cfg, lba, count), outcomes),
    ensures
        run(transfer::initial_phase(mode, cfg, lba, count), outcomes) matches ReadPhase::Done(data)
            ==> data.len() == count * mode.bytes_per_sector(),
{
    lemma_run_length(mode, lba, count, transfer::initial_phase(mode, cfg, lba, count), outcomes);
}

/// Number of answers that a pending request can still wait for, at most.
spec fn answers_left(state: ReadState) -> int {
    state.remaining * state.cfg.attempts() - (state.attempt - 1)
}

proof fn lemma_run_ends(phase: ReadPhase, outcomes: Seq<Result<Seq<u8>, CdReaderError>>)
    requires
        phase matches ReadPhase::Pending(state, _) ==> state.valid() && answers_left(state)
            <= outcomes.len(),
    ensures
        !(run(phase, outcomes) is Pending),
    decreases outcomes.len(),
{
    if let ReadPhase::Pending(state, _) = phase {
        let a = state.cfg.attempts();
        assert(state.remaining * a >= a) by (nonlinear_arith)
            requires
                state.remaining >= 1,
                a >= 1,
        ;
        assert((state.remaining - state.sectors) * a <= state.remaining * a - a)
            by (nonlinear_arith)
            requires
                state.sectors >= 1,
                a >= 1,
        ;
        lemma_run_ends(state.after(outcomes[0]), outcomes.drop_first());
    }
}

/// A read ends: it completes or fails once the drive has answered as many times
/// as there are attempts for each of the requested sectors.
pub proof fn law_read_ends(
    mode: SectorReadMode,
    cfg: RetryConfig,
    lba: int,
    count: int,
    outcomes: Seq<Result<Seq<u8>, CdReaderError>>,
)
    requires
        0 <= lba,
        0 <= count,
        outcomes.len() >= count * cfg.attempts(),
    ensures
        !(run(transfer::initial_phase(mode, cfg, lba, count), outcomes) is Pending),
{
    lemma_run_ends(transfer::initial_phase(mode, cfg, lba, count), outcomes);
}

/// Whether answer number `i` is the failure of a request for sectors from `at` on.
pub open spec fn fails_at(
    phase: ReadPhase,
    outcomes: Seq<Result<Seq<u8>, CdReaderError>>,
    i: int,
    at: int,
) -> bool {
    &&& outcomes[i] is Err
    &&& run(phase, outcomes.take(i)) matches ReadPhase::Pending(state, _) && state.lba == at
}

/// Whether the `n` answers before answer number `end` are failures of requests for
/// the same chunk, the one from sector `at` on, the last of them `err`.
pub open spec fn chunk_fails(
    phase: ReadPhase,
    outcomes: Seq<Result<Seq<u8>, CdReaderError>>,
    at: int,
    end: int,
    n: int,
    err: CdReaderError,
) -> bool {
    &&& 1 <= n <= end <= outcomes.len()
    &&& forall|i: int| end - n <= i < end ==> #[trigger] fails_at(phase, outcomes, i, at)
    &&& outcomes[end - 1] == Err::<Seq<u8>, CdReaderError>(err)
}

proof fn lemma_run_splits(
    phase: ReadPhase,
    outcomes: Seq<Result<Seq<u8>, CdReaderError>>,
    i: int,
)
    requires
        0 <= i <= outcomes.len(),
    ensures
        run(phase, outcomes) == run(run(phase, outcomes.take(i)), outcomes.skip(i)),
    decreases i,
{
    if i == 0 {
        assert(outcomes.skip(0) =~= outcomes);
    } else if let ReadPhase::Pending(state, _) = phase {
        let rest = outcomes.drop_first();
        lemma_run_splits(state.after(outcomes[0]), rest, i - 1);
        assert(outcomes.take(i).drop_first() =~= rest.take(i - 1));
        assert(outcomes.skip(i) =~= rest.skip(i - 1));
    }
}

proof fn lemma_run_one_more(
    phase: ReadPhase,
    outcomes: Seq<Result<Seq<u8>, CdReaderError>>,
    i: int,
)
    requires
        0 <= i < outcomes.len(),
    ensures
        run(phase, outcomes.take(i + 1)) == match run(phase, outcomes.take(i)) {
            ReadPhase::Pending(state, _) => state.after(outcomes[i]),
            ended => ended,
        },
{
    let longer = outcomes.take(i + 1);
    lemma_run_splits(phase, longer, i);
    assert(longer.take(i) =~= outcomes.take(i));
    assert(longer.skip(i).len() == 1 && longer.skip(i)[0] == outcomes[i]);
    reveal_with_fuel(run, 2);
}

/// A pending request knows how often its chunk has failed.
proof fn lemma_attempts_count_failures(
    mode: SectorReadMode,
    cfg: RetryConfig,
    lba: int,
    count: int,
    outcomes: Seq<Result<Seq<u8>, CdReaderError>>,
    i: int,
)
    requires
        0 <= i <= outcomes.len(),
    ensures
        ({
            let first = transfer::initial_phase(mode, cfg, lba, count);
            run(first, outcomes.take(i)) matches ReadPhase::Pending(state, _) ==> {
                &&& state.cfg == cfg
                &&& 1 <= state.attempt <= cfg.attempts()
                &&& state.attempt - 1 <= i
                &&& forall|j: int|
                    i - (state.attempt - 1) <= j < i ==> #[trigger] fails_at(
                        first,
                        outcomes,
                        j,
                        state.lba,
                    )
            }
        }),
    decreases i,
{
    let first = transfer::initial_phase(mode, cfg, lba, count);
    if i > 0 {
        lemma_attempts_count_failures(mode, cfg, lba, count, outcomes, i - 1);
        lemma_run_one_more(first, outcomes, i - 1);
        if let ReadPhase::Pending(before, _) = run(first, outcomes.take(i - 1)) {
            if outcomes[i - 1] is Err {
                assert(fails_at(first, outcomes, i - 1, before.lba));
            }
        }
    }
}

proof fn lemma_failed_read_has_failed_chunk(
    mode: SectorReadMode,
    cfg: RetryConfig,
    lba: int,
    count: int,
    outcomes: Seq<Result<Seq<u8>, CdReaderError>>,
    i: int,
    err: CdReaderError,
)
    requires
        0 <= i <= outcomes.len(),
        run(transfer::initial_phase(mode, cfg, lba, count), outcomes.take(i)) == ReadPhase::Failed(
            err,
        ),
    ensures
        exists|at: int, end: int| #[trigger]
            chunk_fails(
                transfer::initial_phase(mode, cfg, lba, count),
                outcomes,
                at,
                end,
                cfg.attempts(),
                err,
            ),
    decreases i,
{
    let first = transfer::initial_phase(mode, cfg, lba, count);
    if i > 0 {
        lemma_run_one_more(first, outcomes, i - 1);
        lemma_attempts_count_failures(mode, cfg, lba, count, outcomes, i - 1);
        match run(first, outcomes.take(i - 1)) {
            ReadPhase::Pending(state, _) => {
                assert(fails_at(first, outcomes, i - 1, state.lba));
                assert(chunk_fails(first, outcomes, state.lba, i, cfg.attempts(), err));
            },
            _ => {
                lemma_failed_read_has_failed_chunk(mode, cfg, lba, count, outcomes, i - 1, err);
            },
        }
    }
}

/// The attempts at a chunk that fails are counted from the first of its failures on.
proof fn lemma_failures_count_up(
    mode: SectorReadMode,
    cfg: RetryConfig,
    lba: int,
    count: int,
    outcomes: Seq<Result<Seq<u8>, CdReaderError>>,
    at: int,
    end: int,
    err: CdReaderError,
    i: int,
)
    requires
        chunk_fails(
            transfer::initial_phase(mode, cfg, lba, count),
            outcomes,
            at,
            end,
            cfg.attempts(),
            err,
        ),
        end - cfg.attempts() <= i < end,
    ensures
        run(transfer::initial_phase(mode, cfg, lba, count), outcomes.take(i)) matches
            ReadPhase::Pending(state, _) && state.cfg == cfg && state.attempt >= i - (end
            - cfg.attempts()) + 1,
    decreases i,
{
    let first = transfer::initial_phase(mode, cfg, lba, count);
    lemma_attempts_count_failures(mode, cfg, lba, count, outcomes, i);
    assert(fails_at(first, outcomes, i, at));
    if i > end - cfg.attempts() {
        lemma_failures_count_up(mode, cfg, lba, count, outcomes, at, end, err, i - 1);
        assert(fails_at(first, outcomes, i - 1, at));
        lemma_run_one_more(first, outcomes, i - 1);
    }
}

/// A read fails exactly when all attempts at one chunk failed in a row, and it
/// fails with the error of the last of them. So errors that an attempt in time
/// makes up for do not show.
pub proof fn law_read_fails_exactly_after_all_attempts(
    mode: SectorReadMode,
    cfg: RetryConfig,
    lba: int,
    count: int,
    outcomes: Seq<Result<Seq<u8>, CdReaderError>>,
    err: CdReaderError,
)
    requires
        0 <= lba,
        0 <= count,
    ensures
        run(transfer::initial_phase(mode, cfg, lba, count), outcomes) == ReadPhase::Failed(err)
            <==> exists|at: int, end: int| #[trigger]
            chunk_fails(
                transfer::initial_phase(mode, cfg, lba, count),
                outcomes,
                at,
                end,
                cfg.attempts(),
                err,
            ),
{
    let first = transfer::initial_phase(mode, cfg, lba, count);
    let n = cfg.attempts();
    if run(first, outcomes) == ReadPhase::Failed(err) {
        assert(outcomes.take(outcomes.len() as int) =~= outcomes);
        lemma_failed_read_has_failed_chunk(
            mode,
            cfg,
            lba,
            count,
            outcomes,
            outcomes.len() as int,
            err,
        );
    }
    if exists|at: int, end: int| #[trigger] chunk_fails(first, outcomes, at, end, n, err) {
        let (at, end) = choose|at: int, end: int| #[trigger]
            chunk_fails(first, outcomes, at, end, n, err);
        lemma_failures_count_up(mode, cfg, lba, count, outcomes, at, end, err, end - 1);
        lemma_attempts_count_failures(mode, cfg, lba, count, outcomes, end - 1);
        lemma_run_one_more(first, outcomes, end - 1);
        lemma_run_splits(first, outcomes, end);
    }
}

/// A read to which the drive gives enough answers completes, unless all attempts
/// at one chunk fail in a row.
pub proof fn law_read_completes_unless_all_attempts_fail(
    mode: SectorReadMode,
    cfg: RetryConfig,
    lba: int,
    count: int,
    outcomes: Seq<Result<Seq<u8>, CdReaderError>>,
)
    requires
        0 <= lba,
        0 <= count,
        outcomes.len() >= count * cfg.attempts(),
        forall|at: int, end: int, err: CdReaderError| !#[trigger]
            chunk_fails(
                transfer::initial_phase(mode, cfg, lba, count),
                outcomes,
                at,
                end,
                cfg.attempts(),
                err,
            ),
    ensures
        run(transfer::initial_phase(mode, cfg, lba, count), outcomes) is Done,
{
    law_read_ends(mode, cfg, lba, count, outcomes);
    if let ReadPhase::Failed(err) = run(transfer::initial_phase(mode, cfg, lba, count), outcomes) {
        law_read_fails_exactly_after_all_attempts(mode, cfg, lba, count, outcomes, err);
    }
}

/// Whether a count given as `a` means the same as one given as `b`: zero counts as one.
pub open spec fn counts_alike(a: int, b: int) -> bool {
    a == b || (a <= 1 && b <= 1)
}

/// Whether two policies differ at most in that one has a zero where the other has a one.
pub open spec fn policies_alike(c: RetryConfig, d: RetryConfig) -> bool {
    &&& counts_alike(c.max_attempts as int, d.max_attempts as int)
    &&& counts_alike(c.min_sectors_per_read as int, d.min_sectors_per_read as int)
    &&& c.initial_backoff_ms == d.initial_backoff_ms
    &&& c.max_backoff_ms == d.max_backoff_ms
    &&& c.reduce_chunk_on_retry == d.reduce_chunk_on_retry
}

/// Whether two reads, whatever their policies, stand at the same point: with the same
/// request, delays and bytes, or at the same end.
pub open spec fn phases_alike(a: ReadPhase, b: ReadPhase) -> bool {
    match (a, b) {
        (ReadPhase::Pending(state, sleep), ReadPhase::Pending(other, other_sleep)) => {
            &&& state == ReadState { cfg: state.cfg, ..other }
            &&& sleep == other_sleep
        },
        (ReadPhase::Done(data), ReadPhase::Done(other)) => data == other,
        (ReadPhase::Failed(err), ReadPhase::Failed(other)) => err == other,
        _ => false,
    }
}

proof fn lemma_runs_alike(
    a: ReadPhase,
    b: ReadPhase,
    outcomes: Seq<Result<Seq<u8>, CdReaderError>>,
)
    requires
        phases_alike(a, b),
        a is Pending ==> policies_alike(a->Pending_0.cfg, b->Pending_0.cfg),
    ensures
        phases_alike(run(a, outcomes), run(b, outcomes)),
    decreases outcomes.len(),
{
    if outcomes.len() > 0 {
        if let (ReadPhase::Pending(state, _), ReadPhase::Pending(other, _)) = (a, b) {
            lemma_runs_alike(
                state.after(outcomes[0]),
                other.after(outcomes[0]),
                outcomes.drop_first(),
            );
        }
    }
}

/// In a policy zero counts as one: with no attempts at all a chunk still gets one, and
/// with no minimum a chunk still has one sector. Reads of the same sectors under
/// policies that differ only in that make the same requests after the same delays and
/// end with the same bytes or the same error, whatever the drive answers.
pub proof fn law_zero_counts_as_one(
    mode: SectorReadMode,
    c: RetryConfig,
    d: RetryConfig,
    lba: int,
    count: int,
    outcomes: Seq<Result<Seq<u8>, CdReaderError>>,
)
    requires
        policies_alike(c, d),
    ensures
        phases_alike(
            run(transfer::initial_phase(mode, c, lba, count), outcomes),
            run(transfer::initial_phase(mode, d, lba, count), outcomes),
        ),
{
    lemma_runs_alike(
        transfer::initial_phase(mode, c, lba, count),
        transfer::initial_phase(mode, d, lba, count),
        outcomes,
    );
}

} // verus!
